//! The child command line: which shell runs it, with which arguments,
//! working directory and environment.

use crate::event::text_of;
use portable_pty::CommandBuilder;
use vstd::prelude::*;
use vstd::string::*;

verus! {

/// `portable_pty::CommandBuilder`, carried through as an opaque value; what it
/// holds is spoken of through [`command_argv`], [`command_cwd`] and
/// [`command_env`].
#[verifier::external_type_specification]
#[verifier::external_body]
pub struct ExCommandBuilder(portable_pty::CommandBuilder);

/// The argument vector that a builder holds, program first.
pub uninterp spec fn command_argv(cmd: CommandBuilder) -> Seq<Seq<char>>;

/// The working directory that a builder holds, if one was set.
pub uninterp spec fn command_cwd(cmd: CommandBuilder) -> Option<Seq<char>>;

/// The environment that a builder holds: each variable's value under the key
/// that the builder files it by (see [`env_slot`]).  Entries that are not
/// Unicode text have no place in it.
pub uninterp spec fn command_env(cmd: CommandBuilder) -> Map<Seq<char>, Seq<char>>;

/// The key under which a builder files the variable `name`: the name itself
/// where variable names are case-sensitive, its lower-case form on Windows.
pub uninterp spec fn env_slot(name: Seq<char>) -> Seq<char>;

/// `CommandBuilder::new`: a builder whose argument vector is the program
/// alone and which has no working directory.  Its environment is taken from
/// the running process, so nothing is claimed of it.
#[verifier::external_body]
fn new_command(program: &str) -> (cmd: CommandBuilder)
    ensures
        command_argv(cmd) == seq![program@],
        command_cwd(cmd) is None,
{
    CommandBuilder::new(program)
}

/// `CommandBuilder::env`: files `value` under the key of `name`, replacing
/// what was filed there, and leaves arguments and directory alone.
#[verifier::external_body]
fn set_variable(cmd: &mut CommandBuilder, name: &str, value: &str)
    ensures
        command_env(*final(cmd)) == command_env(*old(cmd)).insert(env_slot(name@), value@),
        command_argv(*final(cmd)) == command_argv(*old(cmd)),
        command_cwd(*final(cmd)) == command_cwd(*old(cmd)),
{
    cmd.env(name, value)
}

/// `CommandBuilder::cwd`: sets the working directory and nothing else.
#[verifier::external_body]
fn set_directory(cmd: &mut CommandBuilder, dir: &str)
    ensures
        command_cwd(*final(cmd)) == Some(dir@),
        command_argv(*final(cmd)) == command_argv(*old(cmd)),
        command_env(*final(cmd)) == command_env(*old(cmd)),
{
    cmd.cwd(dir)
}

/// `CommandBuilder::args`: appends the arguments in order.  The builder
/// panics when it has no program, which the precondition rules out.
#[verifier::external_body]
fn append_arguments(cmd: &mut CommandBuilder, arguments: &Vec<String>)
    requires
        command_argv(*old(cmd)).len() > 0,
    ensures
        command_argv(*final(cmd)) == command_argv(*old(cmd)) + arguments.deep_view(),
        command_cwd(*final(cmd)) == command_cwd(*old(cmd)),
        command_env(*final(cmd)) == command_env(*old(cmd)),
{
    cmd.args(arguments)
}

/// Name of the variable that tells the child which terminal it talks to.
pub open spec fn term_name() -> Seq<char> {
    "TERM"@
}

/// The colour-capable terminal type every child is given.
pub open spec fn term_value() -> Seq<char> {
    "xterm-256color"@
}

/// The shell used when the caller names none: the command interpreter on
/// Windows, elsewhere the user's configured shell or, failing that, zsh.
pub open spec fn default_shell_spec(windows: bool, configured: Option<Seq<char>>) -> Seq<char> {
    if windows {
        "cmd.exe"@
    } else {
        match configured {
            Some(shell) => shell,
            None => "/bin/zsh"@,
        }
    }
}

/// Picks the default shell.  `configured` is the value of the `SHELL`
/// variable, if it is set to Unicode text.
pub fn default_shell(windows: bool, configured: Option<String>) -> (shell: String)
    ensures
        shell@ == default_shell_spec(windows, text_of(configured)),
{
    if windows {
        String::from_str("cmd.exe")
    } else {
        match configured {
            Some(shell) => shell,
            None => String::from_str("/bin/zsh"),
        }
    }
}

/// The arguments that make a shell run one command line: `/d /s /c` for the
/// Windows interpreter, `-lc` (login shell, one command) elsewhere.
pub open spec fn shell_arguments_spec(windows: bool, command: Seq<char>) -> Seq<Seq<char>> {
    if windows {
        seq!["/d"@, "/s"@, "/c"@, command]
    } else {
        seq!["-lc"@, command]
    }
}

/// Builds the arguments that follow the shell's own name.
pub fn shell_arguments(windows: bool, command: &str) -> (arguments: Vec<String>)
    ensures
        arguments.deep_view() == shell_arguments_spec(windows, command@),
{
    let mut arguments: Vec<String> = Vec::new();
    if windows {
        arguments.push(String::from_str("/d"));
        arguments.push(String::from_str("/s"));
        arguments.push(String::from_str("/c"));
    } else {
        arguments.push(String::from_str("-lc"));
    }
    arguments.push(String::from_str(command));
    assert(arguments.deep_view() =~= shell_arguments_spec(windows, command@));
    arguments
}

/// `base` after each of `variables` has been set in turn; a later variable
/// wins over an earlier one filed under the same key.
pub open spec fn apply_variables(
    base: Map<Seq<char>, Seq<char>>,
    variables: Seq<(Seq<char>, Seq<char>)>,
) -> Map<Seq<char>, Seq<char>>
    decreases variables.len(),
{
    if variables.len() == 0 {
        base
    } else {
        apply_variables(base, variables.drop_last()).insert(
            env_slot(variables.last().0),
            variables.last().1,
        )
    }
}

/// The environment a child gets from `base`: the caller's variables applied
/// in order, then the terminal type forced.
pub open spec fn child_environment(
    base: Map<Seq<char>, Seq<char>>,
    variables: Seq<(Seq<char>, Seq<char>)>,
) -> Map<Seq<char>, Seq<char>> {
    apply_variables(base, variables).insert(env_slot(term_name()), term_value())
}

/// The caller's variables as text pairs; none when no map was given.
pub open spec fn variables_of(env: Option<Vec<(String, String)>>) -> Seq<(Seq<char>, Seq<char>)> {
    match env {
        Some(variables) => variables.deep_view(),
        None => Seq::empty(),
    }
}

/// Puts together the command that runs `command` under `shell`.
///
/// The argument vector is the shell followed by [`shell_arguments_spec`];
/// the working directory is `cwd` when given; the environment is the
/// process environment with `env` applied in order and `TERM` forced to
/// `xterm-256color` last, so that no caller-supplied variable overrides it.
pub fn build_command(
    shell: String,
    command: &str,
    cwd: Option<String>,
    env: Option<Vec<(String, String)>>,
    windows: bool,
) -> (cmd: CommandBuilder)
    ensures
        command_argv(cmd) == seq![shell@] + shell_arguments_spec(windows, command@),
        command_cwd(cmd) == text_of(cwd),
        exists|base: Map<Seq<char>, Seq<char>>|
            command_env(cmd) == #[trigger] child_environment(base, variables_of(env)),
        command_env(cmd).contains_key(env_slot(term_name())),
        command_env(cmd)[env_slot(term_name())] == term_value(),
{
    let mut cmd = new_command(shell.as_str());
    let ghost base = command_env(cmd);
    match &cwd {
        Some(dir) => {
            set_directory(&mut cmd, dir.as_str());
        },
        None => {},
    }
    match &env {
        Some(variables) => {
            let mut i: usize = 0;
            while i < variables.len()
                invariant
                    i <= variables.len(),
                    command_env(cmd) == apply_variables(base, variables.deep_view().take(i as int)),
                    command_argv(cmd) == seq![shell@],
                    command_cwd(cmd) == text_of(cwd),
                decreases variables.len() - i,
            {
                let variable = &variables[i];
                set_variable(&mut cmd, variable.0.as_str(), variable.1.as_str());
                proof {
                    let all = variables.deep_view();
                    assert(all.take(i + 1).drop_last() =~= all.take(i as int));
                    assert(all.take(i + 1).last() == (variable.0@, variable.1@));
                }
                i = i + 1;
            }
            proof {
                assert(variables.deep_view().take(i as int) =~= variables.deep_view());
            }
        },
        None => {},
    }
    set_variable(&mut cmd, "TERM", "xterm-256color");
    let arguments = shell_arguments(windows, command);
    append_arguments(&mut cmd, &arguments);
    assert(command_env(cmd) == child_environment(base, variables_of(env)));
    cmd
}

} // verus!
