//! What holds of the session manager across calls.
//!
//! The laws speak of the registry through the transitions that the
//! operations' contracts name, and of a session's channel through the events
//! that the operations return.

use crate::command::{apply_variables, child_environment, env_slot, term_name, term_value};
use crate::error::AppError;
use crate::event::{channel_prefix, EventView};
use crate::registry::{RegistryView, SessionControl};
use crate::relay::RelayView;
use crate::session::init_event_spec;
use crate::watcher::exit_event_spec;
use vstd::prelude::*;

verus! {

/// One operation on the registry, as its contract describes it.
pub enum Command<H> {
    /// A start whose backend part succeeded (`run_terminal_stream`).
    Start { entry_id: Seq<char>, handle: H },
    /// An input request (`write_terminal_input`).
    Input { entry_id: Seq<char> },
    /// A stop request (`stop_terminal_stream`).
    Stop { entry_id: Seq<char> },
    /// A shutdown (`stop_all_terminal_streams`).
    StopAll,
    /// The processing of a child's exit (`ExitWatcher::finish`).
    Exit { entry_id: Seq<char> },
    /// The poisoning of the registry (`PtyState::mark_poisoned`).
    Poison,
}

/// The registry after `command`.
pub open spec fn apply<H>(state: RegistryView<H>, command: Command<H>) -> RegistryView<H> {
    match command {
        Command::Start { entry_id, handle } => state.after_start(entry_id, handle),
        Command::Input { entry_id } => state,
        Command::Stop { entry_id } => state.after_stop(entry_id),
        Command::StopAll => state.after_stop_all(),
        Command::Exit { entry_id } => state.after_exit(entry_id),
        Command::Poison => state.after_poison(),
    }
}

/// The registry after `commands`, first to last.
pub open spec fn apply_all<H>(state: RegistryView<H>, commands: Seq<Command<H>>) -> RegistryView<H>
    decreases commands.len(),
{
    if commands.len() == 0 {
        state
    } else {
        apply(apply_all(state, commands.drop_last()), commands.last())
    }
}

/// `command` starts a session under `entry_id`.
pub open spec fn starts<H>(command: Command<H>, entry_id: Seq<char>) -> bool {
    command matches Command::Start { entry_id: started, .. } && started == entry_id
}

/// `command` processes the exit of `entry_id`.
pub open spec fn exits<H>(command: Command<H>, entry_id: Seq<char>) -> bool {
    command matches Command::Exit { entry_id: exited } && exited == entry_id
}

/// `command` requests a stop that reaches `entry_id`.
pub open spec fn stops<H>(command: Command<H>, entry_id: Seq<char>) -> bool {
    command is StopAll || (command matches Command::Stop { entry_id: stopped } && stopped
        == entry_id)
}

/// A registry is poisoned after `commands` exactly if it was before or one
/// of them poisons it.
pub proof fn law_poison_is_permanent<H>(state: RegistryView<H>, commands: Seq<Command<H>>)
    ensures
        apply_all(state, commands).poisoned <==> (state.poisoned || exists|k: int|
            0 <= k < commands.len() && #[trigger] commands[k] is Poison),
    decreases commands.len(),
{
    if commands.len() > 0 {
        let prefix = commands.drop_last();
        law_poison_is_permanent(state, prefix);
        if exists|k: int| 0 <= k < prefix.len() && #[trigger] prefix[k] is Poison {
            let k = choose|k: int| 0 <= k < prefix.len() && #[trigger] prefix[k] is Poison;
            assert(commands[k] is Poison);
        }
        if commands.last() is Poison {
            assert(commands[commands.len() - 1] is Poison);
        }
        if exists|k: int| 0 <= k < commands.len() && #[trigger] commands[k] is Poison {
            let k = choose|k: int| 0 <= k < commands.len() && #[trigger] commands[k] is Poison;
            if k < prefix.len() {
                assert(prefix[k] is Poison);
            }
        }
    }
}

/// An id that is not registered stays unregistered as long as no session is
/// started under it.
pub proof fn law_absent_stays_absent<H>(
    state: RegistryView<H>,
    commands: Seq<Command<H>>,
    entry_id: Seq<char>,
)
    requires
        !state.registered(entry_id),
        forall|k: int| 0 <= k < commands.len() ==> !starts(#[trigger] commands[k], entry_id),
    ensures
        !apply_all(state, commands).registered(entry_id),
    decreases commands.len(),
{
    if commands.len() > 0 {
        let prefix = commands.drop_last();
        assert forall|k: int| 0 <= k < prefix.len() implies !starts(
            #[trigger] prefix[k],
            entry_id,
        ) by {
            assert(prefix[k] == commands[k]);
        }
        law_absent_stays_absent(state, prefix, entry_id);
        assert(!starts(commands[commands.len() - 1], entry_id));
    }
}

/// Requests for an id under which no session was ever started are refused
/// with `SessionNotFound`, whatever else was done to a sound registry.
pub proof fn law_unknown_session_refused<H>(commands: Seq<Command<H>>, entry_id: Seq<char>)
    requires
        forall|k: int| 0 <= k < commands.len() ==> !starts(#[trigger] commands[k], entry_id),
        forall|k: int| 0 <= k < commands.len() ==> !(#[trigger] commands[k] is Poison),
    ensures
        apply_all(
            RegistryView { sessions: Map::<Seq<char>, SessionControl<H>>::empty(), poisoned: false },
            commands,
        ).refusal(entry_id) == Some(AppError::SessionNotFound),
{
    let empty = RegistryView {
        sessions: Map::<Seq<char>, SessionControl<H>>::empty(),
        poisoned: false,
    };
    law_absent_stays_absent(empty, commands, entry_id);
    law_poison_is_permanent(empty, commands);
}

/// Once the exit of a session has been processed, input and stop requests
/// for its id are refused with `SessionNotFound` until a session is started
/// under that id again.
pub proof fn law_exit_closes_session<H>(
    state: RegistryView<H>,
    commands: Seq<Command<H>>,
    entry_id: Seq<char>,
)
    requires
        !state.poisoned,
        forall|k: int| 0 <= k < commands.len() ==> !starts(#[trigger] commands[k], entry_id),
        forall|k: int| 0 <= k < commands.len() ==> !(#[trigger] commands[k] is Poison),
    ensures
        apply_all(state.after_exit(entry_id), commands).refusal(entry_id) == Some(
            AppError::SessionNotFound,
        ),
{
    law_absent_stays_absent(state.after_exit(entry_id), commands, entry_id);
    law_poison_is_permanent(state.after_exit(entry_id), commands);
}

/// A stop request that races with the processing of the session's exit
/// leaves the same registry whichever of the two comes first.
pub proof fn law_stop_and_exit_converge<H>(state: RegistryView<H>, entry_id: Seq<char>)
    ensures
        state.after_stop(entry_id).after_exit(entry_id) == state.after_exit(entry_id).after_stop(
            entry_id,
        ),
        state.after_stop(entry_id).after_exit(entry_id) == state.after_exit(entry_id),
{
    let stop_first = state.after_stop(entry_id).after_exit(entry_id);
    let exit_first = state.after_exit(entry_id).after_stop(entry_id);
    assert(stop_first.sessions =~= state.after_exit(entry_id).sessions);
    assert(exit_first.sessions =~= state.after_exit(entry_id).sessions);
}

/// A stop flag that is set stays set until the session's exit is processed
/// or a new session takes over its id, as long as the registry stays sound.
pub proof fn law_stop_flag_persists<H>(
    state: RegistryView<H>,
    commands: Seq<Command<H>>,
    entry_id: Seq<char>,
)
    requires
        state.stop_flag(entry_id),
        forall|k: int| 0 <= k < commands.len() ==> !starts(#[trigger] commands[k], entry_id),
        forall|k: int| 0 <= k < commands.len() ==> !exits(#[trigger] commands[k], entry_id),
        forall|k: int| 0 <= k < commands.len() ==> !(#[trigger] commands[k] is Poison),
    ensures
        apply_all(state, commands).stop_flag(entry_id),
    decreases commands.len(),
{
    if commands.len() > 0 {
        let prefix = commands.drop_last();
        assert forall|k: int| 0 <= k < prefix.len() implies !starts(#[trigger] prefix[k], entry_id)
            && !exits(prefix[k], entry_id) && !(prefix[k] is Poison) by {
            assert(prefix[k] == commands[k]);
        }
        law_stop_flag_persists(state, prefix, entry_id);
        let last = commands[commands.len() - 1];
        assert(!starts(last, entry_id) && !exits(last, entry_id) && !(last is Poison));
    }
}

/// A stop requested while the session is registered is reported by its
/// exit: whatever else happens in between, short of a new start under the
/// same id or a poisoned registry, the flag read at exit is set.
pub proof fn law_stop_is_reported<H>(
    state: RegistryView<H>,
    commands: Seq<Command<H>>,
    entry_id: Seq<char>,
)
    requires
        state.refusal(entry_id) is None,
        forall|k: int| 0 <= k < commands.len() ==> !starts(#[trigger] commands[k], entry_id),
        forall|k: int| 0 <= k < commands.len() ==> !exits(#[trigger] commands[k], entry_id),
        forall|k: int| 0 <= k < commands.len() ==> !(#[trigger] commands[k] is Poison),
    ensures
        apply_all(state.after_stop(entry_id), commands).stop_flag(entry_id),
{
    law_stop_flag_persists(state.after_stop(entry_id), commands, entry_id);
}

/// A shutdown reaches every registered session: each one's exit reports a
/// stop, under the same provisos as [`law_stop_is_reported`].
pub proof fn law_shutdown_is_reported<H>(
    state: RegistryView<H>,
    commands: Seq<Command<H>>,
    entry_id: Seq<char>,
)
    requires
        state.refusal(entry_id) is None,
        forall|k: int| 0 <= k < commands.len() ==> !starts(#[trigger] commands[k], entry_id),
        forall|k: int| 0 <= k < commands.len() ==> !exits(#[trigger] commands[k], entry_id),
        forall|k: int| 0 <= k < commands.len() ==> !(#[trigger] commands[k] is Poison),
    ensures
        apply_all(state.after_stop_all(), commands).stop_flag(entry_id),
{
    law_stop_flag_persists(state.after_stop_all(), commands, entry_id);
}

/// Without a stop request no stop is reported: where the flag reads clear
/// and no command stops the session, it reads clear afterwards too.  In
/// particular a session that exits on its own reports `stopped == false`.
pub proof fn law_no_stop_no_report<H>(
    state: RegistryView<H>,
    commands: Seq<Command<H>>,
    entry_id: Seq<char>,
)
    requires
        !state.stop_flag(entry_id),
        forall|k: int| 0 <= k < commands.len() ==> !stops(#[trigger] commands[k], entry_id),
    ensures
        !apply_all(state, commands).stop_flag(entry_id),
    decreases commands.len(),
{
    if commands.len() > 0 {
        let prefix = commands.drop_last();
        assert forall|k: int| 0 <= k < prefix.len() implies !stops(#[trigger] prefix[k], entry_id) by {
            assert(prefix[k] == commands[k]);
        }
        law_no_stop_no_report(state, prefix, entry_id);
        assert(!stops(commands[commands.len() - 1], entry_id));
    }
}

/// A session that has just been started reads as not stopped.
pub proof fn law_start_clears_stop_flag<H>(state: RegistryView<H>, entry_id: Seq<char>, handle: H)
    ensures
        !apply(state, Command::Start { entry_id, handle }).stop_flag(entry_id),
{
}

/// Sessions with different ids publish on different channels.
pub proof fn law_channels_are_distinct(first: Seq<char>, second: Seq<char>)
    requires
        first != second,
    ensures
        channel_prefix() + first != channel_prefix() + second,
{
    let prefix = channel_prefix();
    if prefix + first == prefix + second {
        assert((prefix + first).subrange(prefix.len() as int, (prefix + first).len() as int)
            =~= first);
        assert((prefix + second).subrange(prefix.len() as int, (prefix + second).len() as int)
            =~= second);
        assert(first == second);
    }
}

/// A relay as a session gets it: open, with nothing published.
pub open spec fn fresh_relay() -> RelayView {
    RelayView { open: true, published: Seq::empty() }
}

/// The relay after `reads`, first to last.
pub open spec fn relay_all(relay: RelayView, reads: Seq<Option<Seq<u8>>>) -> RelayView
    decreases reads.len(),
{
    if reads.len() == 0 {
        relay
    } else {
        relay_all(relay, reads.drop_last()).after_read(reads.last())
    }
}

/// Output is relayed in the order in which it was read: as long as every
/// read brings bytes, the relay has published exactly one `stdout` event
/// per read, the k-th holding the decoding of the k-th read.
pub proof fn law_relay_preserves_order(reads: Seq<Option<Seq<u8>>>)
    requires
        forall|k: int| 0 <= k < reads.len() ==> #[trigger] reads[k] is Some,
    ensures
        relay_all(fresh_relay(), reads).open,
        relay_all(fresh_relay(), reads).published == Seq::new(
            reads.len(),
            |k: int| RelayView::chunk_event(reads[k]->Some_0),
        ),
    decreases reads.len(),
{
    let expected = Seq::new(reads.len(), |k: int| RelayView::chunk_event(reads[k]->Some_0));
    if reads.len() == 0 {
        assert(relay_all(fresh_relay(), reads).published =~= expected);
    } else {
        let prefix = reads.drop_last();
        assert forall|k: int| 0 <= k < prefix.len() implies #[trigger] prefix[k] is Some by {
            assert(prefix[k] == reads[k]);
        }
        law_relay_preserves_order(prefix);
        assert(reads[reads.len() - 1] is Some);
        assert(relay_all(fresh_relay(), reads).published =~= expected);
    }
}

/// A closed relay publishes nothing more, whatever is read.
pub proof fn law_closed_relay_is_silent(relay: RelayView, reads: Seq<Option<Seq<u8>>>)
    requires
        !relay.open,
    ensures
        relay_all(relay, reads) == relay,
    decreases reads.len(),
{
    if reads.len() > 0 {
        law_closed_relay_is_silent(relay, reads.drop_last());
    }
}

/// A relay publishes `stdout` events and nothing else.
pub proof fn law_relay_publishes_stdout(reads: Seq<Option<Seq<u8>>>, k: int)
    requires
        0 <= k < relay_all(fresh_relay(), reads).published.len(),
    ensures
        relay_all(fresh_relay(), reads).published[k] is Stdout,
    decreases reads.len(),
{
    if reads.len() > 0 {
        let before = relay_all(fresh_relay(), reads.drop_last());
        if k < before.published.len() {
            law_relay_publishes_stdout(reads.drop_last(), k);
        }
    }
}

/// What a session's channel carries: the `init` event of the start, the
/// relay's events, and the `exit` event, which the embedding program
/// published after `exit_at` of the relay's events.
pub open spec fn channel_log(
    entry_id: Seq<char>,
    cwd: Option<Seq<char>>,
    reads: Seq<Option<Seq<u8>>>,
    exit_at: int,
    wait: Option<u32>,
    stopped: bool,
    elapsed_ms: u128,
) -> Seq<EventView> {
    let relayed = relay_all(fresh_relay(), reads).published;
    seq![init_event_spec(entry_id, cwd)] + relayed.take(exit_at) + seq![
        exit_event_spec(wait, stopped, elapsed_ms),
    ] + relayed.skip(exit_at)
}

/// The channel of a started session carries exactly one `init` event, and
/// it comes before every `stdout` and `exit` event.
pub proof fn law_init_comes_first(
    entry_id: Seq<char>,
    cwd: Option<Seq<char>>,
    reads: Seq<Option<Seq<u8>>>,
    exit_at: int,
    wait: Option<u32>,
    stopped: bool,
    elapsed_ms: u128,
)
    requires
        0 <= exit_at <= relay_all(fresh_relay(), reads).published.len(),
    ensures
        ({
            let log = channel_log(entry_id, cwd, reads, exit_at, wait, stopped, elapsed_ms);
            &&& log[0] == init_event_spec(entry_id, cwd)
            &&& forall|i: int| 0 < i < log.len() ==> !(#[trigger] log[i] is Init)
        }),
{
    let log = channel_log(entry_id, cwd, reads, exit_at, wait, stopped, elapsed_ms);
    let relayed = relay_all(fresh_relay(), reads).published;
    assert forall|i: int| 0 < i < log.len() implies !(#[trigger] log[i] is Init) by {
        if i <= exit_at {
            assert(log[i] == relayed[i - 1]);
            law_relay_publishes_stdout(reads, i - 1);
        } else if i > exit_at + 1 {
            assert(log[i] == relayed[i - 2]);
            law_relay_publishes_stdout(reads, i - 2);
        }
    }
}

/// The channel of a session carries exactly one `exit` event.  It is the
/// last event on the channel where the relay's output was all published
/// before it.
pub proof fn law_exit_comes_once(
    entry_id: Seq<char>,
    cwd: Option<Seq<char>>,
    reads: Seq<Option<Seq<u8>>>,
    exit_at: int,
    wait: Option<u32>,
    stopped: bool,
    elapsed_ms: u128,
)
    requires
        0 <= exit_at <= relay_all(fresh_relay(), reads).published.len(),
    ensures
        ({
            let log = channel_log(entry_id, cwd, reads, exit_at, wait, stopped, elapsed_ms);
            let relayed = relay_all(fresh_relay(), reads).published;
            &&& log.len() == relayed.len() + 2
            &&& log[exit_at + 1] == exit_event_spec(wait, stopped, elapsed_ms)
            &&& forall|i: int| 0 <= i < log.len() && i != exit_at + 1 ==> !(#[trigger] log[i] is Exit)
            &&& exit_at == relayed.len() ==> log.last() == exit_event_spec(wait, stopped, elapsed_ms)
        }),
{
    let log = channel_log(entry_id, cwd, reads, exit_at, wait, stopped, elapsed_ms);
    let relayed = relay_all(fresh_relay(), reads).published;
    assert forall|i: int| 0 <= i < log.len() && i != exit_at + 1 implies !(#[trigger] log[i] is Exit) by {
        if 0 < i <= exit_at {
            assert(log[i] == relayed[i - 1]);
            law_relay_publishes_stdout(reads, i - 1);
        } else if i > exit_at + 1 {
            assert(log[i] == relayed[i - 2]);
            law_relay_publishes_stdout(reads, i - 2);
        }
    }
}

/// Whatever the caller's variables say, the child's terminal type is the
/// forced one.
pub proof fn law_term_is_forced(
    base: Map<Seq<char>, Seq<char>>,
    variables: Seq<(Seq<char>, Seq<char>)>,
)
    ensures
        child_environment(base, variables).contains_key(env_slot(term_name())),
        child_environment(base, variables)[env_slot(term_name())] == term_value(),
{
}

/// What `apply_variables` leaves under `key`: the value of the last variable
/// filed there, or what `base` had.
proof fn lemma_apply_variables_lookup(
    base: Map<Seq<char>, Seq<char>>,
    variables: Seq<(Seq<char>, Seq<char>)>,
    key: Seq<char>,
)
    ensures
        (forall|j: int| 0 <= j < variables.len() ==> env_slot(#[trigger] variables[j].0) != key)
            ==> (apply_variables(base, variables).contains_key(key) == base.contains_key(key)
            && (base.contains_key(key) ==> apply_variables(base, variables)[key] == base[key])),
        forall|i: int|
            0 <= i < variables.len() && env_slot(#[trigger] variables[i].0) == key && (forall|
                j: int,
            |
                i < j < variables.len() ==> env_slot(#[trigger] variables[j].0) != key)
                ==> apply_variables(base, variables).contains_key(key) && apply_variables(
                base,
                variables,
            )[key] == variables[i].1,
    decreases variables.len(),
{
    if variables.len() > 0 {
        let prefix = variables.drop_last();
        let last = variables.len() - 1;
        lemma_apply_variables_lookup(base, prefix, key);
        assert forall|j: int| 0 <= j < prefix.len() implies #[trigger] prefix[j] == variables[j] by {}
        if forall|j: int| 0 <= j < variables.len() ==> env_slot(#[trigger] variables[j].0) != key {
            assert forall|j: int| 0 <= j < prefix.len() implies env_slot(#[trigger] prefix[j].0)
                != key by {
                assert(prefix[j] == variables[j]);
            }
            assert(env_slot(variables[last].0) != key);
        }
        assert forall|i: int|
            0 <= i < variables.len() && env_slot(#[trigger] variables[i].0) == key && (forall|
                j: int,
            |
                i < j < variables.len() ==> env_slot(#[trigger] variables[j].0)
                    != key) implies apply_variables(base, variables).contains_key(key)
            && apply_variables(base, variables)[key] == variables[i].1 by {
            if i < last {
                assert(env_slot(variables[last].0) != key);
                assert(prefix[i] == variables[i]);
                assert forall|j: int| i < j < prefix.len() implies env_slot(
                    #[trigger] prefix[j].0,
                ) != key by {
                    assert(prefix[j] == variables[j]);
                }
            }
        }
    }
}

/// A caller's variable reaches the child with the value of its last
/// occurrence, unless it is filed under the key of the terminal type.
pub proof fn law_last_variable_wins(
    base: Map<Seq<char>, Seq<char>>,
    variables: Seq<(Seq<char>, Seq<char>)>,
    i: int,
)
    requires
        0 <= i < variables.len(),
        env_slot(variables[i].0) != env_slot(term_name()),
        forall|j: int|
            i < j < variables.len() ==> env_slot(#[trigger] variables[j].0) != env_slot(
                variables[i].0,
            ),
    ensures
        child_environment(base, variables).contains_key(env_slot(variables[i].0)),
        child_environment(base, variables)[env_slot(variables[i].0)] == variables[i].1,
{
    lemma_apply_variables_lookup(base, variables, env_slot(variables[i].0));
}

/// What neither the caller's variables nor the terminal type touch is
/// inherited as it was.
pub proof fn law_untouched_variables_are_inherited(
    base: Map<Seq<char>, Seq<char>>,
    variables: Seq<(Seq<char>, Seq<char>)>,
    key: Seq<char>,
)
    requires
        key != env_slot(term_name()),
        forall|j: int| 0 <= j < variables.len() ==> env_slot(#[trigger] variables[j].0) != key,
    ensures
        child_environment(base, variables).contains_key(key) == base.contains_key(key),
        base.contains_key(key) ==> child_environment(base, variables)[key] == base[key],
{
    lemma_apply_variables_lookup(base, variables, key);
}

} // verus!
