use pty_sessions::error::AppError;
use pty_sessions::event::{event_name, TerminalStreamEvent};
use pty_sessions::relay::stdout_event;

#[test]
fn event_name_prefixes_entry_id() {
    assert_eq!(event_name("abc"), "pty-stream-abc");
    assert_eq!(event_name("run 7/β"), "pty-stream-run 7/β");
}

#[test]
fn event_name_of_empty_id_is_the_prefix() {
    assert_eq!(event_name(""), "pty-stream-");
}

#[test]
fn event_names_of_distinct_ids_differ() {
    assert_ne!(event_name("a"), event_name("b"));
    assert_ne!(event_name("a"), event_name("a "));
}

#[test]
fn open_pty_message() {
    assert_eq!(AppError::OpenPty("no ptys".to_string()).message(), "Failed to allocate PTY: no ptys");
}

#[test]
fn spawn_message() {
    assert_eq!(
        AppError::Spawn("not found".to_string()).message(),
        "Failed to spawn PTY child process: not found"
    );
}

#[test]
fn clone_reader_message() {
    assert_eq!(
        AppError::CloneReader("dup failed".to_string()).message(),
        "Failed to clone PTY reader: dup failed"
    );
}

#[test]
fn take_writer_message() {
    assert_eq!(
        AppError::TakeWriter("taken".to_string()).message(),
        "Failed to create PTY writer: taken"
    );
}

#[test]
fn state_poisoned_message() {
    assert_eq!(AppError::StatePoisoned.message(), "Internal PTY state lock poisoned");
}

#[test]
fn session_not_found_message() {
    assert_eq!(AppError::SessionNotFound.message(), "Terminal session not found");
}

#[test]
fn signal_message() {
    assert_eq!(
        AppError::Signal("ESRCH".to_string()).message(),
        "Failed to send signal to terminal: ESRCH"
    );
}

#[test]
fn input_message() {
    assert_eq!(
        AppError::Input("broken pipe".to_string()).message(),
        "Failed to write terminal input: broken pipe"
    );
}

#[test]
fn message_with_empty_detail_keeps_prefix() {
    assert_eq!(AppError::Input(String::new()).message(), "Failed to write terminal input: ");
}

#[test]
fn event_type_tags() {
    let init = TerminalStreamEvent::Init { run_id: "e1".to_string(), cwd: None };
    let stdout = stdout_event("hi".to_string());
    let exit = TerminalStreamEvent::Exit {
        exit_code: 0,
        timed_out: false,
        stopped: false,
        duration_ms: 3,
    };
    assert_eq!(init.event_type(), "init");
    assert_eq!(stdout.event_type(), "stdout");
    assert_eq!(exit.event_type(), "exit");
}

#[test]
fn stdout_event_carries_chunk() {
    assert_eq!(
        stdout_event("line\r\n".to_string()),
        TerminalStreamEvent::Stdout { chunk: "line\r\n".to_string() }
    );
}
