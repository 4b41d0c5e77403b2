//! Planning a spawn and naming what can fail while it is carried out.

use crate::command::{
    build_command, child_environment, command_argv, command_cwd, command_env, default_shell,
    default_shell_spec, env_slot, shell_arguments_spec, term_name, term_value, variables_of,
};
use crate::error::AppError;
use crate::event::text_of;
use portable_pty::CommandBuilder;
use vstd::prelude::*;
use vstd::string::*;

verus! {

/// Number of bytes the output relay asks for in one read.
pub const READ_BUFFER_SIZE: usize = 4096;

/// Number of output chunks that may wait between reader and forwarder.
pub const HANDOFF_CAPACITY: usize = 128;

/// Geometry of a pseudo-terminal.
#[derive(Debug, Clone, Copy, PartialEq, Eq, Structural)]
pub struct TerminalSize {
    pub rows: u16,
    pub cols: u16,
    pub pixel_width: u16,
    pub pixel_height: u16,
}

/// The geometry every session starts with: 24 rows of 80 columns.
pub fn initial_size() -> (size: TerminalSize)
    ensures
        size == (TerminalSize { rows: 24, cols: 80, pixel_width: 0, pixel_height: 0 }),
{
    TerminalSize { rows: 24, cols: 80, pixel_width: 0, pixel_height: 0 }
}

/// The fallible steps of bringing a session up, in the order they are taken.
#[derive(Debug, Clone, Copy, PartialEq, Eq, Structural)]
pub enum SpawnStep {
    /// Allocating the pseudo-terminal.
    OpenPty,
    /// Spawning the child on the terminal's slave side.
    SpawnChild,
    /// Obtaining a readable handle from the master side.
    CloneReader,
    /// Obtaining the writable handle from the master side.
    TakeWriter,
}

/// A step that failed, with the backend's description of the failure.
#[derive(Debug, Clone, PartialEq, Eq)]
pub struct SpawnFailure {
    pub step: SpawnStep,
    pub detail: String,
}

/// The error that reports `failure`: one kind per step, carrying the detail.
pub open spec fn spawn_error_spec(failure: SpawnFailure) -> AppError {
    match failure.step {
        SpawnStep::OpenPty => AppError::OpenPty(failure.detail),
        SpawnStep::SpawnChild => AppError::Spawn(failure.detail),
        SpawnStep::CloneReader => AppError::CloneReader(failure.detail),
        SpawnStep::TakeWriter => AppError::TakeWriter(failure.detail),
    }
}

/// Turns a failed step into the error handed back to the caller.
pub fn spawn_error(failure: SpawnFailure) -> (error: AppError)
    ensures
        error == spawn_error_spec(failure),
{
    match failure.step {
        SpawnStep::OpenPty => AppError::OpenPty(failure.detail),
        SpawnStep::SpawnChild => AppError::Spawn(failure.detail),
        SpawnStep::CloneReader => AppError::CloneReader(failure.detail),
        SpawnStep::TakeWriter => AppError::TakeWriter(failure.detail),
    }
}

/// What the backend is asked to do for one session.
pub struct SpawnPlan {
    /// Geometry of the terminal to allocate.
    pub size: TerminalSize,
    /// The command to spawn on it.
    pub command: CommandBuilder,
}

/// The shell a session runs under: the caller's choice, else the default.
pub open spec fn resolved_shell(
    shell: Option<Seq<char>>,
    windows: bool,
    configured: Option<Seq<char>>,
) -> Seq<char> {
    match shell {
        Some(chosen) => chosen,
        None => default_shell_spec(windows, configured),
    }
}

/// Plans the spawn of `command`: the initial geometry, and the command built
/// for the resolved shell with `cwd` and `env` applied.
///
/// `windows` says which shell convention holds; `configured` is the value of
/// the `SHELL` variable, if any.
pub fn plan_spawn(
    command: &str,
    cwd: Option<String>,
    shell: Option<String>,
    env: Option<Vec<(String, String)>>,
    windows: bool,
    configured: Option<String>,
) -> (plan: SpawnPlan)
    ensures
        plan.size == (TerminalSize { rows: 24, cols: 80, pixel_width: 0, pixel_height: 0 }),
        command_argv(plan.command) == seq![
            resolved_shell(
                text_of(shell),
                windows,
                text_of(configured),
            ),
        ] + shell_arguments_spec(windows, command@),
        command_cwd(plan.command) == text_of(cwd),
        exists|base: Map<Seq<char>, Seq<char>>|
            command_env(plan.command) == #[trigger] child_environment(base, variables_of(env)),
        command_env(plan.command).contains_key(env_slot(term_name())),
        command_env(plan.command)[env_slot(term_name())] == term_value(),
{
    let shell_to_use = match shell {
        Some(chosen) => chosen,
        None => default_shell(windows, configured),
    };
    let command = build_command(shell_to_use, command, cwd, env, windows);
    SpawnPlan { size: initial_size(), command }
}

} // verus!
