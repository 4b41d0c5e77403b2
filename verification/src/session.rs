//! The command surface: starting a session, sending it input, stopping it,
//! and stopping everything at shutdown.

use crate::error::AppError;
use crate::event::{channel_prefix, event_name, text_of, EventView, TerminalStreamEvent};
use crate::registry::{
    get_control, request_stop, request_stop_all, snapshot_of, PtyState, SessionControl,
};
use crate::relay::{OutputRelay, RelayView};
use crate::spawn::{spawn_error, spawn_error_spec, SpawnFailure};
use crate::watcher::ExitWatcher;
use vstd::prelude::*;
use vstd::string::*;

verus! {

/// What a successful start hands to the embedding program.
pub struct SessionLaunch {
    /// The channel on which the session's events are published.
    pub channel: String,
    /// The event to publish first.
    pub init: TerminalStreamEvent,
    /// The relay for the session's output.
    pub relay: OutputRelay,
    /// The right to report the session's exit.
    pub watcher: ExitWatcher,
}

/// The `init` event of session `entry_id`.
pub open spec fn init_event_spec(entry_id: Seq<char>, cwd: Option<Seq<char>>) -> EventView {
    EventView::Init { run_id: entry_id, cwd }
}

/// Completes the start of a session once the backend has done its part.
///
/// `backend` is the outcome of allocating the terminal, spawning the child
/// and obtaining its handles: the handles, or the step that failed.  On
/// success the session is registered under `entry_id` with its stop flag
/// clear, before anything is published, and the launch carries the `init`
/// event, a relay that has published nothing and the exit watcher.  A failed
/// step, or a poisoned registry, leaves the registry as it was and yields
/// the matching error and no event.  `session_id` only labels the request;
/// the registry keys on `entry_id`.
pub fn run_terminal_stream<H>(
    state: &mut PtyState<H>,
    _session_id: &str,
    entry_id: String,
    cwd: Option<String>,
    backend: Result<H, SpawnFailure>,
) -> (result: Result<SessionLaunch, AppError>)
    ensures
        ({
            let before = old(state)@;
            let after = final(state)@;
            &&& after == match backend {
                Ok(handle) => before.after_start(entry_id@, handle),
                Err(_) => before,
            }
            &&& match result {
                Ok(launch) => {
                    &&& backend is Ok
                    &&& !before.poisoned
                    &&& launch.channel@ == channel_prefix() + entry_id@
                    &&& launch.init@ == init_event_spec(entry_id@, text_of(cwd))
                    &&& launch.relay@ == (RelayView { open: true, published: Seq::empty() })
                    &&& launch.watcher@ == entry_id@
                },
                Err(error) => match backend {
                    Ok(_) => before.poisoned && error == AppError::StatePoisoned,
                    Err(failure) => error == spawn_error_spec(failure),
                },
            }
        }),
{
    let handle = match backend {
        Ok(handle) => handle,
        Err(failure) => {
            return Err(spawn_error(failure));
        },
    };
    let control = SessionControl { handle, stop_requested: false };
    match state.insert(entry_id.clone(), control) {
        Ok(()) => {},
        Err(error) => {
            return Err(error);
        },
    }
    let channel = event_name(entry_id.as_str());
    let watcher = ExitWatcher::new(entry_id.clone());
    let init = TerminalStreamEvent::Init { run_id: entry_id, cwd };
    Ok(SessionLaunch { channel, init, relay: OutputRelay::new(), watcher })
}

/// What is to be written, and to which session's writer.
pub struct InputDelivery<'a, 'b, H> {
    /// The handles of the addressed session.
    pub handle: &'a H,
    /// The bytes to write and flush: the caller's text, nothing added.
    pub bytes: &'b [u8],
}

/// Resolves a request to send `data` to session `entry_id`.
///
/// A registered session yields its handles and the UTF-8 bytes of `data`,
/// verbatim.  Otherwise the request is refused: `StatePoisoned` on a
/// poisoned registry, `SessionNotFound` for an id that is not registered.
/// The registry is not changed and nothing is published.
pub fn write_terminal_input<'a, 'b, H>(state: &'a PtyState<H>, entry_id: &str, data: &'b str) -> (result:
    Result<InputDelivery<'a, 'b, H>, AppError>)
    ensures
        match result {
            Ok(delivery) => state@.refusal(entry_id@) is None && *delivery.handle
                == state@.sessions[entry_id@].handle && delivery.bytes@ == data.spec_bytes(),
            Err(error) => state@.refusal(entry_id@) == Some(error),
        },
{
    match get_control(state, entry_id) {
        Ok(control) => Ok(InputDelivery { handle: &control.handle, bytes: data.as_bytes() }),
        Err(error) => Err(error),
    }
}

/// Reports how the write and flush of a delivery went: an I/O failure is an
/// `Input` error that carries the failure's description.
pub fn input_result(outcome: Result<(), String>) -> (result: Result<(), AppError>)
    ensures
        result == match outcome {
            Ok(()) => Ok::<(), AppError>(()),
            Err(detail) => Err(AppError::Input(detail)),
        },
{
    match outcome {
        Ok(()) => Ok(()),
        Err(detail) => Err(AppError::Input(detail)),
    }
}

/// Reports how the kill of a stopped session's child went: a failure is a
/// `Signal` error that carries the failure's description.
pub fn signal_result(outcome: Result<(), String>) -> (result: Result<(), AppError>)
    ensures
        result == match outcome {
            Ok(()) => Ok::<(), AppError>(()),
            Err(detail) => Err(AppError::Signal(detail)),
        },
{
    match outcome {
        Ok(()) => Ok(()),
        Err(detail) => Err(AppError::Signal(detail)),
    }
}

/// Records a user-initiated stop of session `entry_id`.
///
/// A registered session gets its stop flag set and its handles are handed
/// back for the kill; the session stays registered until its exit is
/// processed.  Otherwise the request is refused as in
/// [`write_terminal_input`] and the registry is not changed.  Nothing is
/// published either way.
pub fn stop_terminal_stream<'a, H>(state: &'a mut PtyState<H>, entry_id: &str) -> (result: Result<
    &'a H,
    AppError,
>)
    ensures
        ({
            let before = old(state)@;
            let after = final(state)@;
            &&& after == before.after_stop(entry_id@)
            &&& match result {
                Ok(handle) => before.refusal(entry_id@) is None && *handle
                    == before.sessions[entry_id@].handle,
                Err(error) => before.refusal(entry_id@) == Some(error),
            }
        }),
{
    request_stop(state, entry_id)
}

/// Records a stop of every registered session, for shutdown.
///
/// Every stop flag is set and the handles of all sessions are handed back,
/// each once, for the kill.  A poisoned registry is left alone and yields no
/// handle.
pub fn stop_all_terminal_streams<'a, H>(state: &'a mut PtyState<H>) -> (handles: Vec<&'a H>)
    ensures
        ({
            let before = old(state)@;
            let after = final(state)@;
            &&& after == before.after_stop_all()
            &&& if before.poisoned {
                handles@.len() == 0
            } else {
                snapshot_of(before.sessions, handles@)
            }
        }),
{
    request_stop_all(state)
}

} // verus!
