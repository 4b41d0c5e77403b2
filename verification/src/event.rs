//! Events published on a session's channel.

use vstd::prelude::*;
use vstd::string::*;

verus! {

/// Prefix shared by every per-session channel name.
pub open spec fn channel_prefix() -> Seq<char> {
    "pty-stream-"@
}

/// Name of the channel that carries the events of session `entry_id`.
pub fn event_name(entry_id: &str) -> (name: String)
    ensures
        name@ == channel_prefix() + entry_id@,
{
    String::from_str("pty-stream-").concat(entry_id)
}

/// One message on a session's channel.
#[derive(Debug, Clone, PartialEq, Eq)]
pub enum TerminalStreamEvent {
    /// The session is registered and its child is running.
    Init { run_id: String, cwd: Option<String> },
    /// A piece of the child's output, in arrival order.
    Stdout { chunk: String },
    /// The child has terminated; nothing follows on this channel.
    Exit { exit_code: i32, timed_out: bool, stopped: bool, duration_ms: u64 },
}

/// Mathematical content of a [`TerminalStreamEvent`].
pub enum EventView {
    Init { run_id: Seq<char>, cwd: Option<Seq<char>> },
    Stdout { chunk: Seq<char> },
    Exit { exit_code: i32, timed_out: bool, stopped: bool, duration_ms: u64 },
}

/// Text of an optional string.
pub open spec fn text_of(value: Option<String>) -> Option<Seq<char>> {
    match value {
        Some(text) => Some(text@),
        None => None,
    }
}

impl View for TerminalStreamEvent {
    type V = EventView;

    open spec fn view(&self) -> EventView {
        match *self {
            TerminalStreamEvent::Init { run_id, cwd } => EventView::Init {
                run_id: run_id@,
                cwd: text_of(cwd),
            },
            TerminalStreamEvent::Stdout { chunk } => EventView::Stdout { chunk: chunk@ },
            TerminalStreamEvent::Exit {
                exit_code,
                timed_out,
                stopped,
                duration_ms,
            } => EventView::Exit { exit_code, timed_out, stopped, duration_ms },
        }
    }
}

impl TerminalStreamEvent {
    /// Value of the `type` tag under which the event is serialised.
    pub open spec fn event_type_spec(self) -> Seq<char> {
        match self {
            TerminalStreamEvent::Init { .. } => "init"@,
            TerminalStreamEvent::Stdout { .. } => "stdout"@,
            TerminalStreamEvent::Exit { .. } => "exit"@,
        }
    }

    /// The `type` tag of the event: `init`, `stdout` or `exit`.
    pub fn event_type(&self) -> (tag: &'static str)
        ensures
            tag@ == self.event_type_spec(),
    {
        match self {
            TerminalStreamEvent::Init { .. } => "init",
            TerminalStreamEvent::Stdout { .. } => "stdout",
            TerminalStreamEvent::Exit { .. } => "exit",
        }
    }
}

} // verus!
