use pty_sessions::command::{build_command, default_shell, shell_arguments};
use pty_sessions::spawn::{
    initial_size, plan_spawn, spawn_error, SpawnFailure, SpawnStep, TerminalSize,
    HANDOFF_CAPACITY, READ_BUFFER_SIZE,
};
use pty_sessions::error::AppError;

fn argv_of(cmd: &portable_pty::CommandBuilder) -> Vec<String> {
    cmd.get_argv().iter().map(|arg| arg.to_string_lossy().to_string()).collect()
}

fn env_of<'a>(cmd: &'a portable_pty::CommandBuilder, name: &str) -> Option<&'a str> {
    cmd.get_env(name).and_then(|value| value.to_str())
}

fn cwd_of(cmd: &portable_pty::CommandBuilder) -> Option<&str> {
    cmd.get_cwd().and_then(|dir| dir.to_str())
}

#[test]
fn default_shell_on_windows_is_cmd() {
    assert_eq!(default_shell(true, None), "cmd.exe");
    assert_eq!(default_shell(true, Some("/bin/bash".to_string())), "cmd.exe");
}

#[test]
fn default_shell_follows_configured_shell() {
    assert_eq!(default_shell(false, Some("/usr/bin/fish".to_string())), "/usr/bin/fish");
}

#[test]
fn default_shell_falls_back_to_zsh() {
    assert_eq!(default_shell(false, None), "/bin/zsh");
}

#[test]
fn posix_shell_arguments() {
    assert_eq!(shell_arguments(false, "echo hi"), vec!["-lc".to_string(), "echo hi".to_string()]);
}

#[test]
fn windows_shell_arguments() {
    assert_eq!(
        shell_arguments(true, "dir"),
        vec!["/d".to_string(), "/s".to_string(), "/c".to_string(), "dir".to_string()]
    );
}

#[test]
fn build_command_sets_argv() {
    let cmd = build_command("/bin/sh".to_string(), "ls -l", None, None, false);
    assert_eq!(argv_of(&cmd), vec!["/bin/sh", "-lc", "ls -l"]);
}

#[test]
fn build_command_sets_windows_argv() {
    let cmd = build_command("cmd.exe".to_string(), "dir", None, None, true);
    assert_eq!(argv_of(&cmd), vec!["cmd.exe", "/d", "/s", "/c", "dir"]);
}

#[test]
fn build_command_keeps_command_as_one_argument() {
    let cmd = build_command("/bin/sh".to_string(), "echo 'a b'  && true", None, None, false);
    assert_eq!(cmd.get_argv().len(), 3);
    assert_eq!(cmd.get_argv()[2].to_str(), Some("echo 'a b'  && true"));
}

#[test]
fn build_command_without_cwd_has_none() {
    let cmd = build_command("/bin/sh".to_string(), "pwd", None, None, false);
    assert!(cmd.get_cwd().is_none());
}

#[test]
fn build_command_applies_cwd() {
    let cmd = build_command("/bin/sh".to_string(), "pwd", Some("/tmp".to_string()), None, false);
    assert_eq!(cwd_of(&cmd), Some("/tmp"));
}

#[test]
fn build_command_forces_term() {
    let cmd = build_command("/bin/sh".to_string(), "true", None, None, false);
    assert_eq!(env_of(&cmd, "TERM"), Some("xterm-256color"));
}

#[test]
fn build_command_applies_extra_variables() {
    let env = vec![
        ("PTY_SESSIONS_A".to_string(), "1".to_string()),
        ("PTY_SESSIONS_B".to_string(), "two words".to_string()),
    ];
    let cmd = build_command("/bin/sh".to_string(), "true", None, Some(env), false);
    assert_eq!(env_of(&cmd, "PTY_SESSIONS_A"), Some("1"));
    assert_eq!(env_of(&cmd, "PTY_SESSIONS_B"), Some("two words"));
    assert_eq!(env_of(&cmd, "TERM"), Some("xterm-256color"));
}

#[test]
fn build_command_later_variable_wins() {
    let env = vec![
        ("PTY_SESSIONS_A".to_string(), "first".to_string()),
        ("PTY_SESSIONS_A".to_string(), "second".to_string()),
    ];
    let cmd = build_command("/bin/sh".to_string(), "true", None, Some(env), false);
    assert_eq!(env_of(&cmd, "PTY_SESSIONS_A"), Some("second"));
}

#[test]
fn build_command_term_cannot_be_overridden() {
    let env = vec![("TERM".to_string(), "dumb".to_string())];
    let cmd = build_command("/bin/sh".to_string(), "true", None, Some(env), false);
    assert_eq!(env_of(&cmd, "TERM"), Some("xterm-256color"));
}

#[test]
fn build_command_with_empty_variable_list() {
    let cmd = build_command("/bin/sh".to_string(), "true", None, Some(Vec::new()), false);
    assert_eq!(env_of(&cmd, "TERM"), Some("xterm-256color"));
    assert_eq!(argv_of(&cmd), vec!["/bin/sh", "-lc", "true"]);
}

#[test]
fn initial_size_is_24_by_80() {
    assert_eq!(
        initial_size(),
        TerminalSize { rows: 24, cols: 80, pixel_width: 0, pixel_height: 0 }
    );
}

#[test]
fn relay_limits() {
    assert_eq!(READ_BUFFER_SIZE, 4096);
    assert_eq!(HANDOFF_CAPACITY, 128);
}

#[test]
fn plan_spawn_uses_chosen_shell() {
    let plan = plan_spawn(
        "pwd",
        Some("/tmp".to_string()),
        Some("/bin/bash".to_string()),
        None,
        false,
        Some("/bin/zsh".to_string()),
    );
    assert_eq!(plan.size, TerminalSize { rows: 24, cols: 80, pixel_width: 0, pixel_height: 0 });
    assert_eq!(argv_of(&plan.command), vec!["/bin/bash", "-lc", "pwd"]);
    assert_eq!(cwd_of(&plan.command), Some("/tmp"));
    assert_eq!(env_of(&plan.command, "TERM"), Some("xterm-256color"));
}

#[test]
fn plan_spawn_defaults_the_shell() {
    let plan = plan_spawn("pwd", None, None, None, false, Some("/bin/dash".to_string()));
    assert_eq!(argv_of(&plan.command), vec!["/bin/dash", "-lc", "pwd"]);
    let plan = plan_spawn("pwd", None, None, None, false, None);
    assert_eq!(argv_of(&plan.command), vec!["/bin/zsh", "-lc", "pwd"]);
    let plan = plan_spawn("dir", None, None, None, true, None);
    assert_eq!(argv_of(&plan.command), vec!["cmd.exe", "/d", "/s", "/c", "dir"]);
}

#[test]
fn spawn_error_names_the_step() {
    let failure = |step| SpawnFailure { step, detail: "boom".to_string() };
    assert_eq!(spawn_error(failure(SpawnStep::OpenPty)), AppError::OpenPty("boom".to_string()));
    assert_eq!(spawn_error(failure(SpawnStep::SpawnChild)), AppError::Spawn("boom".to_string()));
    assert_eq!(
        spawn_error(failure(SpawnStep::CloneReader)),
        AppError::CloneReader("boom".to_string())
    );
    assert_eq!(
        spawn_error(failure(SpawnStep::TakeWriter)),
        AppError::TakeWriter("boom".to_string())
    );
}
