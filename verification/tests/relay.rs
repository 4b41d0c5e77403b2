use pty_sessions::event::TerminalStreamEvent;
use pty_sessions::registry::PtyState;
use pty_sessions::relay::OutputRelay;
use pty_sessions::session::run_terminal_stream;

fn relay_of_new_session() -> OutputRelay {
    let mut state: PtyState<u8> = PtyState::new();
    run_terminal_stream(&mut state, "s", "e".to_string(), None, Ok(0)).unwrap().relay
}

fn chunk(text: &str) -> Option<TerminalStreamEvent> {
    Some(TerminalStreamEvent::Stdout { chunk: text.to_string() })
}

#[test]
fn relay_decodes_utf8() {
    let mut relay = relay_of_new_session();
    assert_eq!(relay.forward(Some(b"hi")), chunk("hi"));
    assert_eq!(relay.forward(Some("grüße ✓\r\n".as_bytes())), chunk("grüße ✓\r\n"));
    assert!(relay.is_open());
}

#[test]
fn relay_replaces_invalid_bytes() {
    let mut relay = relay_of_new_session();
    assert_eq!(relay.forward(Some(&[0x61, 0xff, 0x62])), chunk("a\u{fffd}b"));
    assert_eq!(relay.forward(Some(&[0xc3])), chunk("\u{fffd}"));
    assert!(relay.is_open());
}

#[test]
fn relay_keeps_escape_sequences() {
    let mut relay = relay_of_new_session();
    assert_eq!(relay.forward(Some(b"\x1b[31mred\x1b[0m")), chunk("\x1b[31mred\x1b[0m"));
}

#[test]
fn relay_preserves_read_order() {
    let mut relay = relay_of_new_session();
    let mut seen = Vec::new();
    for n in 1..=200u32 {
        let line = format!("{n}\n");
        match relay.forward(Some(line.as_bytes())) {
            Some(TerminalStreamEvent::Stdout { chunk }) => seen.push(chunk),
            other => panic!("unexpected {other:?}"),
        }
    }
    let expected: Vec<String> = (1..=200u32).map(|n| format!("{n}\n")).collect();
    assert_eq!(seen, expected);
}

#[test]
fn relay_forwards_a_full_buffer() {
    let mut relay = relay_of_new_session();
    let buffer = vec![b'x'; pty_sessions::spawn::READ_BUFFER_SIZE];
    assert_eq!(relay.forward(Some(&buffer)), chunk(&"x".repeat(4096)));
}

#[test]
fn empty_read_closes_the_relay() {
    let mut relay = relay_of_new_session();
    assert_eq!(relay.forward(Some(b"a")), chunk("a"));
    assert_eq!(relay.forward(Some(b"")), None);
    assert!(!relay.is_open());
}

#[test]
fn failed_read_closes_the_relay() {
    let mut relay = relay_of_new_session();
    assert_eq!(relay.forward(None), None);
    assert!(!relay.is_open());
}

#[test]
fn closed_relay_stays_silent() {
    let mut relay = relay_of_new_session();
    relay.forward(None);
    assert_eq!(relay.forward(Some(b"late")), None);
    assert!(!relay.is_open());
}

#[test]
fn close_stops_forwarding() {
    let mut relay = relay_of_new_session();
    relay.close();
    assert!(!relay.is_open());
    assert_eq!(relay.forward(Some(b"late")), None);
}
