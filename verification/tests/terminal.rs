use portable_pty::{native_pty_system, Child, ChildKiller, PtySize};
use pty_sessions::error::AppError;
use pty_sessions::event::TerminalStreamEvent;
use pty_sessions::registry::PtyState;
use pty_sessions::session::{
    run_terminal_stream, stop_all_terminal_streams, stop_terminal_stream, write_terminal_input,
    SessionLaunch,
};
use pty_sessions::spawn::{plan_spawn, READ_BUFFER_SIZE};
use std::io::{Read, Write};

struct Running {
    launch: SessionLaunch,
    reader: Box<dyn Read + Send>,
    writer: Box<dyn Write + Send>,
    child: Box<dyn Child + Send + Sync>,
    killer: Box<dyn ChildKiller + Send + Sync>,
}

fn spawn(state: &mut PtyState<usize>, entry_id: &str, handle: usize, command: &str) -> Running {
    let plan = plan_spawn(
        command,
        Some("/tmp".to_string()),
        Some("/bin/sh".to_string()),
        Some(vec![("PS1".to_string(), "$ ".to_string())]),
        false,
        None,
    );
    let size = PtySize {
        rows: plan.size.rows,
        cols: plan.size.cols,
        pixel_width: plan.size.pixel_width,
        pixel_height: plan.size.pixel_height,
    };
    let pair = native_pty_system().openpty(size).unwrap();
    let child = pair.slave.spawn_command(plan.command).unwrap();
    let reader = pair.master.try_clone_reader().unwrap();
    let writer = pair.master.take_writer().unwrap();
    let killer = child.clone_killer();
    let launch = run_terminal_stream(
        state,
        "session",
        entry_id.to_string(),
        Some("/tmp".to_string()),
        Ok(handle),
    )
    .unwrap();
    Running { launch, reader, writer, child, killer }
}

fn drain(running: &mut Running) -> String {
    let mut text = String::new();
    let mut buf = [0u8; READ_BUFFER_SIZE];
    while running.launch.relay.is_open() {
        let read = running.reader.read(&mut buf).ok().map(|n| &buf[..n]);
        if let Some(TerminalStreamEvent::Stdout { chunk }) = running.launch.relay.forward(read) {
            text.push_str(&chunk);
        }
    }
    text
}

#[test]
fn pwd_in_tmp_prints_tmp() {
    let mut state = PtyState::new();
    let mut running = spawn(&mut state, "e1", 0, "pwd");
    assert_eq!(
        running.launch.init,
        TerminalStreamEvent::Init { run_id: "e1".to_string(), cwd: Some("/tmp".to_string()) }
    );
    let output = drain(&mut running);
    assert!(output.contains("/tmp"), "output was {output:?}");
    let wait = running.child.wait().ok().map(|status| status.exit_code());
    let exit = running.launch.watcher.finish(&mut state, wait, 10);
    assert_eq!(
        exit,
        TerminalStreamEvent::Exit { exit_code: 0, timed_out: false, stopped: false, duration_ms: 10 }
    );
    assert_eq!(write_terminal_input(&state, "e1", "x").err(), Some(AppError::SessionNotFound));
}

#[test]
fn child_sees_forced_term() {
    let mut state = PtyState::new();
    let mut running = spawn(&mut state, "e1", 0, "printf '<%s>' \"$TERM\"");
    let output = drain(&mut running);
    assert!(output.contains("<xterm-256color>"), "output was {output:?}");
}

#[test]
fn output_arrives_in_order() {
    let mut state = PtyState::new();
    let mut running = spawn(&mut state, "e1", 0, "i=1; while [ $i -le 50 ]; do echo n$i.; i=$((i+1)); done");
    let output = drain(&mut running);
    let mut from = 0;
    for n in 1..=50 {
        let needle = format!("n{n}.");
        match output[from..].find(&needle) {
            Some(at) => from += at + needle.len(),
            None => panic!("{needle} missing or out of order in {output:?}"),
        }
    }
}

#[test]
fn input_reaches_the_shell() {
    let mut state = PtyState::new();
    let mut running = spawn(&mut state, "e1", 0, "/bin/sh");
    let delivery = write_terminal_input(&state, "e1", "echo h$((40+2))i\n").unwrap();
    running.writer.write_all(delivery.bytes).unwrap();
    running.writer.flush().unwrap();
    let delivery = write_terminal_input(&state, "e1", "exit\n").unwrap();
    running.writer.write_all(delivery.bytes).unwrap();
    running.writer.flush().unwrap();
    let output = drain(&mut running);
    assert!(output.contains("h42i"), "output was {output:?}");
}

#[test]
fn nonzero_exit_code_is_reported() {
    let mut state = PtyState::new();
    let mut running = spawn(&mut state, "e1", 0, "exit 3");
    drain(&mut running);
    let wait = running.child.wait().ok().map(|status| status.exit_code());
    let exit = running.launch.watcher.finish(&mut state, wait, 1);
    assert_eq!(
        exit,
        TerminalStreamEvent::Exit { exit_code: 3, timed_out: false, stopped: false, duration_ms: 1 }
    );
}

#[test]
fn stop_kills_the_child_and_is_reported() {
    let mut state = PtyState::new();
    let mut running = spawn(&mut state, "e1", 0, "sleep 60");
    assert_eq!(stop_terminal_stream(&mut state, "e1"), Ok(&0));
    running.killer.kill().unwrap();
    let wait = running.child.wait().ok().map(|status| status.exit_code());
    let exit = running.launch.watcher.finish(&mut state, wait, 1);
    match exit {
        TerminalStreamEvent::Exit { stopped, timed_out, .. } => {
            assert!(stopped);
            assert!(!timed_out);
        }
        other => panic!("unexpected {other:?}"),
    }
    assert_eq!(stop_terminal_stream(&mut state, "e1"), Err(AppError::SessionNotFound));
}

#[test]
fn stop_all_terminates_every_child() {
    let mut state = PtyState::new();
    let mut sessions: Vec<Running> = Vec::new();
    for handle in 0..3usize {
        let entry_id = format!("e{handle}");
        sessions.push(spawn(&mut state, &entry_id, handle, "sleep 60"));
    }
    let mut handles: Vec<usize> = stop_all_terminal_streams(&mut state).into_iter().copied().collect();
    handles.sort();
    assert_eq!(handles, vec![0, 1, 2]);
    for handle in handles {
        let _ = sessions[handle].killer.kill();
    }
    for running in sessions {
        let Running { launch, mut child, .. } = running;
        let wait = child.wait().ok().map(|status| status.exit_code());
        match launch.watcher.finish(&mut state, wait, 1) {
            TerminalStreamEvent::Exit { stopped, .. } => assert!(stopped),
            other => panic!("unexpected {other:?}"),
        }
        assert!(matches!(child.try_wait(), Ok(Some(_))));
    }
    assert!(stop_all_terminal_streams(&mut state).is_empty());
}
