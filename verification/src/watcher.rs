//! The exit watcher: what is reported, and what is forgotten, once a
//! session's child has terminated.

use crate::event::{channel_prefix, event_name, EventView, TerminalStreamEvent};
use crate::registry::{get_control, remove_control, PtyState};
use vstd::prelude::*;
use vstd::string::*;

verus! {

/// The exit code reported for the outcome of waiting on a child: the
/// status' code read as a signed 32-bit number, or 1 when waiting failed.
pub open spec fn exit_code_spec(wait: Option<u32>) -> i32 {
    match wait {
        Some(code) => if code <= 0x7fff_ffff {
            code as i32
        } else {
            (code - 0x1_0000_0000) as i32
        },
        None => 1,
    }
}

/// Computes [`exit_code_spec`].
pub fn exit_code(wait: Option<u32>) -> (code: i32)
    ensures
        code == exit_code_spec(wait),
{
    match wait {
        Some(code) => {
            if code <= 0x7fff_ffff {
                code as i32
            } else {
                let low: u32 = code - 0x8000_0000;
                (low as i32) + i32::MIN
            }
        },
        None => 1,
    }
}

/// The duration reported for `elapsed_ms` milliseconds: its low 64 bits.
pub open spec fn duration_ms_spec(elapsed_ms: u128) -> u64 {
    (elapsed_ms % 0x1_0000_0000_0000_0000) as u64
}

/// Computes [`duration_ms_spec`].
pub fn duration_ms(elapsed_ms: u128) -> (reported: u64)
    ensures
        reported == duration_ms_spec(elapsed_ms),
{
    (elapsed_ms % 0x1_0000_0000_0000_0000) as u64
}

/// The terminal event of a session.
pub open spec fn exit_event_spec(wait: Option<u32>, stopped: bool, elapsed_ms: u128) -> EventView {
    EventView::Exit {
        exit_code: exit_code_spec(wait),
        timed_out: false,
        stopped,
        duration_ms: duration_ms_spec(elapsed_ms),
    }
}

/// The right to report the exit of one session.  It is handed out when the
/// session starts and used up by [`ExitWatcher::finish`].
pub struct ExitWatcher {
    entry_id: String,
}

impl View for ExitWatcher {
    type V = Seq<char>;

    /// The id of the watched session.
    closed spec fn view(&self) -> Seq<char> {
        self.entry_id@
    }
}

impl ExitWatcher {
    /// A watcher for session `entry_id`.
    pub(crate) fn new(entry_id: String) -> (watcher: Self)
        ensures
            watcher@ == entry_id@,
    {
        ExitWatcher { entry_id }
    }

    /// The id of the watched session.
    pub fn entry_id(&self) -> (entry_id: &str)
        ensures
            entry_id@ == self@,
    {
        self.entry_id.as_str()
    }

    /// The channel on which the exit is to be published.
    pub fn channel(&self) -> (name: String)
        ensures
            name@ == channel_prefix() + self@,
    {
        event_name(self.entry_id.as_str())
    }

    /// Processes the termination of the watched child.
    ///
    /// `wait` is the exit status' code, or `None` when waiting failed;
    /// `elapsed_ms` is the time since the spawn.  The session is removed
    /// from the registry and the returned `exit` event says whether a stop
    /// had been requested for it.  On a poisoned registry nothing is removed
    /// and the event reports no stop.
    pub fn finish<H>(self, state: &mut PtyState<H>, wait: Option<u32>, elapsed_ms: u128) -> (event:
        TerminalStreamEvent)
        ensures
            event@ == exit_event_spec(wait, old(state)@.stop_flag(self@), elapsed_ms),
            final(state)@ == old(state)@.after_exit(self@),
    {
        let stopped = match get_control(state, self.entry_id.as_str()) {
            Ok(control) => control.stop_requested,
            Err(_) => false,
        };
        let _ = remove_control(state, self.entry_id.as_str());
        TerminalStreamEvent::Exit {
            exit_code: exit_code(wait),
            timed_out: false,
            stopped,
            duration_ms: duration_ms(elapsed_ms),
        }
    }
}

} // verus!
