//! The session registry: which session ids are reachable, and through what.

use crate::error::AppError;
use vstd::prelude::*;
use vstd::string::*;

verus! {

/// What callers can act on once a session is running.
#[derive(Debug, Clone, PartialEq, Eq)]
pub struct SessionControl<H> {
    /// The embedding program's handles for writing to and killing the child.
    pub handle: H,
    /// Set by a user-initiated stop; read when the child's exit is reported.
    pub stop_requested: bool,
}

/// Mathematical content of a [`PtyState`].
pub struct RegistryView<H> {
    /// The reachable sessions, by id.
    pub sessions: Map<Seq<char>, SessionControl<H>>,
    /// Whether the registry was poisoned; if so every operation on it fails.
    pub poisoned: bool,
}

impl<H> RegistryView<H> {
    /// Whether `entry_id` is reachable for input and stop requests.
    pub open spec fn registered(self, entry_id: Seq<char>) -> bool {
        self.sessions.contains_key(entry_id)
    }

    /// The registry with `entry_id` bound to `control`, whatever it was bound to.
    pub open spec fn with_session(self, entry_id: Seq<char>, control: SessionControl<H>) -> Self {
        RegistryView { sessions: self.sessions.insert(entry_id, control), poisoned: self.poisoned }
    }

    /// The registry without `entry_id`.
    pub open spec fn without_session(self, entry_id: Seq<char>) -> Self {
        RegistryView { sessions: self.sessions.remove(entry_id), poisoned: self.poisoned }
    }

    /// The control of `entry_id` with its stop flag set.
    pub open spec fn stopped_control(self, entry_id: Seq<char>) -> SessionControl<H> {
        SessionControl { handle: self.sessions[entry_id].handle, stop_requested: true }
    }

    /// The registry with the stop flag of `entry_id` set, if it is registered.
    pub open spec fn with_stop_requested(self, entry_id: Seq<char>) -> Self {
        if self.registered(entry_id) {
            self.with_session(entry_id, self.stopped_control(entry_id))
        } else {
            self
        }
    }

    /// The registry with the stop flag of every session set.
    pub open spec fn with_all_stopped(self) -> Self {
        RegistryView {
            sessions: Map::new(
                |entry_id: Seq<char>| self.registered(entry_id),
                |entry_id: Seq<char>| self.stopped_control(entry_id),
            ),
            poisoned: self.poisoned,
        }
    }

    /// Why a request that targets `entry_id` is refused, if it is: a poisoned
    /// registry refuses everything, a sound one refuses unregistered ids.
    pub open spec fn refusal(self, entry_id: Seq<char>) -> Option<AppError> {
        if self.poisoned {
            Some(AppError::StatePoisoned)
        } else if !self.registered(entry_id) {
            Some(AppError::SessionNotFound)
        } else {
            None
        }
    }

    /// The registry after a session was started under `entry_id` with
    /// `handle`: registered with its stop flag clear, unless the registry is
    /// poisoned and cannot be changed.
    pub open spec fn after_start(self, entry_id: Seq<char>, handle: H) -> Self {
        if self.poisoned {
            self
        } else {
            self.with_session(entry_id, SessionControl { handle, stop_requested: false })
        }
    }

    /// The registry after a stop of `entry_id` was requested: its flag is
    /// set where the request is not refused.
    pub open spec fn after_stop(self, entry_id: Seq<char>) -> Self {
        if self.refusal(entry_id) is None {
            self.with_stop_requested(entry_id)
        } else {
            self
        }
    }

    /// The registry after a shutdown: every flag is set, unless the registry
    /// is poisoned.
    pub open spec fn after_stop_all(self) -> Self {
        if self.poisoned {
            self
        } else {
            self.with_all_stopped()
        }
    }

    /// The registry after the exit of `entry_id` was processed: the session
    /// is gone, unless the registry is poisoned.
    pub open spec fn after_exit(self, entry_id: Seq<char>) -> Self {
        if self.poisoned {
            self
        } else {
            self.without_session(entry_id)
        }
    }

    /// The registry after it was poisoned.
    pub open spec fn after_poison(self) -> Self {
        RegistryView { sessions: self.sessions, poisoned: true }
    }

    /// The stop flag of `entry_id`, or `false` where it cannot be read.
    pub open spec fn stop_flag(self, entry_id: Seq<char>) -> bool {
        !self.poisoned && self.registered(entry_id) && self.sessions[entry_id].stop_requested
    }
}

struct Entry<H> {
    id: String,
    control: SessionControl<H>,
}

/// The registry of live sessions.
pub struct PtyState<H> {
    entries: Vec<Entry<H>>,
    poisoned: bool,
}

spec fn holds_id<H>(entries: Seq<Entry<H>>, id: Seq<char>, i: int) -> bool {
    0 <= i < entries.len() && entries[i].id@ == id
}

spec fn distinct_ids<H>(entries: Seq<Entry<H>>) -> bool {
    forall|i: int, j: int|
        0 <= i < entries.len() && 0 <= j < entries.len() && #[trigger] entries[i].id@
            == #[trigger] entries[j].id@ ==> i == j
}

spec fn sessions_of<H>(entries: Seq<Entry<H>>) -> Map<Seq<char>, SessionControl<H>> {
    Map::new(
        |id: Seq<char>| exists|i: int| holds_id(entries, id, i),
        |id: Seq<char>| entries[choose|i: int| holds_id(entries, id, i)].control,
    )
}

proof fn lemma_sessions_at<H>(entries: Seq<Entry<H>>, i: int)
    requires
        distinct_ids(entries),
        0 <= i < entries.len(),
    ensures
        sessions_of(entries).contains_key(entries[i].id@),
        sessions_of(entries)[entries[i].id@] == entries[i].control,
{
    let id = entries[i].id@;
    assert(holds_id(entries, id, i));
    let j = choose|j: int| holds_id(entries, id, j);
    assert(holds_id(entries, id, j));
}

proof fn lemma_sessions_absent<H>(entries: Seq<Entry<H>>, id: Seq<char>)
    requires
        forall|i: int| 0 <= i < entries.len() ==> entries[i].id@ != id,
    ensures
        !sessions_of(entries).contains_key(id),
{
    if sessions_of(entries).contains_key(id) {
        let i = choose|i: int| holds_id(entries, id, i);
        assert(holds_id(entries, id, i));
    }
}

/// Appending an entry under a fresh id binds that id and nothing else.
proof fn lemma_sessions_push<H>(entries: Seq<Entry<H>>, entry: Entry<H>)
    requires
        distinct_ids(entries),
        !sessions_of(entries).contains_key(entry.id@),
    ensures
        distinct_ids(entries.push(entry)),
        sessions_of(entries.push(entry)) == sessions_of(entries).insert(entry.id@, entry.control),
{
    let after = entries.push(entry);
    assert forall|i: int| 0 <= i < entries.len() implies entries[i].id@ != entry.id@ by {
        assert(holds_id(entries, entries[i].id@, i));
    }
    assert forall|i: int, j: int|
        0 <= i < after.len() && 0 <= j < after.len() && #[trigger] after[i].id@
            == #[trigger] after[j].id@ implies i == j by {
        if i < entries.len() && j < entries.len() {
            assert(entries[i].id@ == entries[j].id@);
        } else if i < entries.len() {
            assert(entries[i].id@ != entry.id@);
        } else if j < entries.len() {
            assert(entries[j].id@ != entry.id@);
        }
    }
    assert forall|id: Seq<char>| #[trigger]
        sessions_of(after).contains_key(id) == sessions_of(entries).insert(
            entry.id@,
            entry.control,
        ).contains_key(id) by {
        if sessions_of(after).contains_key(id) {
            let i = choose|i: int| holds_id(after, id, i);
            if i < entries.len() {
                assert(holds_id(entries, id, i));
            }
        }
        if sessions_of(entries).contains_key(id) {
            let i = choose|i: int| holds_id(entries, id, i);
            assert(holds_id(after, id, i));
        }
        if id == entry.id@ {
            assert(holds_id(after, id, entries.len() as int));
        }
    }
    assert forall|id: Seq<char>| sessions_of(after).contains_key(id) implies #[trigger]
        sessions_of(after)[id] == sessions_of(entries).insert(entry.id@, entry.control)[id] by {
        let i = choose|i: int| holds_id(after, id, i);
        lemma_sessions_at(after, i);
        if i < entries.len() {
            lemma_sessions_at(entries, i);
        }
    }
    assert(sessions_of(after) =~= sessions_of(entries).insert(entry.id@, entry.control));
}

/// Taking the entry at `i` out unbinds its id and nothing else.
proof fn lemma_sessions_remove<H>(entries: Seq<Entry<H>>, i: int)
    requires
        distinct_ids(entries),
        0 <= i < entries.len(),
    ensures
        distinct_ids(entries.remove(i)),
        sessions_of(entries.remove(i)) == sessions_of(entries).remove(entries[i].id@),
{
    let after = entries.remove(i);
    let gone = entries[i].id@;
    let origin = |k: int| if k < i { k } else { k + 1 };
    assert forall|k: int| 0 <= k < after.len() implies #[trigger] after[k] == entries[origin(k)] by {}
    assert forall|k: int, l: int|
        0 <= k < after.len() && 0 <= l < after.len() && #[trigger] after[k].id@
            == #[trigger] after[l].id@ implies k == l by {
        assert(after[k] == entries[origin(k)]);
        assert(after[l] == entries[origin(l)]);
    }
    assert forall|id: Seq<char>| #[trigger]
        sessions_of(after).contains_key(id) == sessions_of(entries).remove(gone).contains_key(
            id,
        ) by {
        if sessions_of(after).contains_key(id) {
            let k = choose|k: int| holds_id(after, id, k);
            assert(after[k] == entries[origin(k)]);
            assert(holds_id(entries, id, origin(k)));
        }
        if sessions_of(entries).remove(gone).contains_key(id) {
            let j = choose|j: int| holds_id(entries, id, j);
            let k = if j < i { j } else { j - 1 };
            assert(after[k] == entries[origin(k)]);
            assert(holds_id(after, id, k));
        }
    }
    assert forall|id: Seq<char>| sessions_of(after).contains_key(id) implies #[trigger]
        sessions_of(after)[id] == sessions_of(entries).remove(gone)[id] by {
        let k = choose|k: int| holds_id(after, id, k);
        lemma_sessions_at(after, k);
        assert(after[k] == entries[origin(k)]);
        lemma_sessions_at(entries, origin(k));
    }
    assert(sessions_of(after) =~= sessions_of(entries).remove(gone));
}

impl<H> View for PtyState<H> {
    type V = RegistryView<H>;

    closed spec fn view(&self) -> RegistryView<H> {
        RegistryView { sessions: sessions_of(self.entries@), poisoned: self.poisoned }
    }
}

impl<H> PtyState<H> {
    #[verifier::type_invariant]
    spec fn well_formed(self) -> bool {
        distinct_ids(self.entries@)
    }

    /// An empty registry.
    pub fn new() -> (state: Self)
        ensures
            state@.sessions == Map::<Seq<char>, SessionControl<H>>::empty(),
            !state@.poisoned,
    {
        let state = PtyState { entries: Vec::new(), poisoned: false };
        proof {
            assert forall|id: Seq<char>| !state@.sessions.contains_key(id) by {
                lemma_sessions_absent(state.entries@, id);
            }
            assert(state@.sessions =~= Map::<Seq<char>, SessionControl<H>>::empty());
        }
        state
    }

    /// Marks the registry as poisoned: from now on every operation on it fails.
    pub fn mark_poisoned(&mut self)
        ensures
            final(self)@ == old(self)@.after_poison(),
    {
        proof {
            use_type_invariant(&*self);
        }
        self.poisoned = true;
    }

    /// Whether the registry was poisoned.
    pub fn is_poisoned(&self) -> (poisoned: bool)
        ensures
            poisoned == self@.poisoned,
    {
        self.poisoned
    }

    /// Position of `entry_id` among the entries, if it is registered.
    fn position(&self, entry_id: &str) -> (found: Option<usize>)
        ensures
            match found {
                Some(i) => holds_id(self.entries@, entry_id@, i as int)
                    && self@.sessions.contains_key(entry_id@)
                    && self@.sessions[entry_id@] == self.entries[i as int].control,
                None => !self@.sessions.contains_key(entry_id@),
            },
    {
        proof {
            use_type_invariant(self);
        }
        let wanted = String::from_str(entry_id);
        let mut i: usize = 0;
        while i < self.entries.len()
            invariant
                i <= self.entries.len(),
                wanted@ == entry_id@,
                distinct_ids(self.entries@),
                forall|j: int| 0 <= j < i ==> self.entries[j].id@ != entry_id@,
            decreases self.entries.len() - i,
        {
            if self.entries[i].id == wanted {
                proof {
                    lemma_sessions_at(self.entries@, i as int);
                }
                return Some(i);
            }
            i = i + 1;
        }
        proof {
            lemma_sessions_absent(self.entries@, entry_id@);
        }
        None
    }

    /// Takes the entry at `i` out of the registry.
    fn take_at(&mut self, i: usize) -> (control: SessionControl<H>)
        requires
            i < old(self).entries.len(),
        ensures
            control == old(self).entries[i as int].control,
            final(self)@ == old(self)@.without_session(old(self).entries[i as int].id@),
    {
        proof {
            use_type_invariant(&*self);
            lemma_sessions_remove(self.entries@, i as int);
        }
        let mut entries: Vec<Entry<H>> = Vec::new();
        std::mem::swap(&mut self.entries, &mut entries);
        let entry = entries.remove(i);
        std::mem::swap(&mut self.entries, &mut entries);
        entry.control
    }

    /// Sets the stop flag of the entry at `i`.
    fn request_stop_at(&mut self, i: usize)
        requires
            i < old(self).entries.len(),
        ensures
            final(self).entries@.len() == old(self).entries@.len(),
            final(self).entries[i as int].id == old(self).entries[i as int].id,
            final(self)@ == old(self)@.with_stop_requested(old(self).entries[i as int].id@),
    {
        proof {
            use_type_invariant(&*self);
        }
        let ghost before = self.entries@;
        let mut entries: Vec<Entry<H>> = Vec::new();
        std::mem::swap(&mut self.entries, &mut entries);
        entries[i].control.stop_requested = true;
        proof {
            let after = entries@;
            let id = before[i as int].id@;
            assert(after.len() == before.len());
            assert forall|k: int| 0 <= k < after.len() implies #[trigger] after[k].id
                == before[k].id by {}
            assert(distinct_ids(after));
            lemma_sessions_at(before, i as int);
            assert forall|key: Seq<char>| #[trigger]
                sessions_of(after).contains_key(key) == sessions_of(before).contains_key(key) by {
                if sessions_of(after).contains_key(key) {
                    let k = choose|k: int| holds_id(after, key, k);
                    assert(holds_id(before, key, k));
                }
                if sessions_of(before).contains_key(key) {
                    let k = choose|k: int| holds_id(before, key, k);
                    assert(holds_id(after, key, k));
                }
            }
            let expected = RegistryView {
                sessions: sessions_of(before),
                poisoned: self.poisoned,
            }.with_stop_requested(id);
            assert forall|key: Seq<char>| sessions_of(after).contains_key(key) implies #[trigger]
                sessions_of(after)[key] == expected.sessions[key] by {
                let k = choose|k: int| holds_id(after, key, k);
                lemma_sessions_at(after, k);
                lemma_sessions_at(before, k);
            }
            assert(sessions_of(after) =~= expected.sessions);
        }
        std::mem::swap(&mut self.entries, &mut entries);
    }

    /// Adds an entry whose id is not registered.
    fn add(&mut self, entry_id: String, control: SessionControl<H>)
        requires
            !old(self)@.registered(entry_id@),
        ensures
            final(self)@ == old(self)@.with_session(entry_id@, control),
    {
        proof {
            use_type_invariant(&*self);
            lemma_sessions_push(self.entries@, Entry { id: entry_id, control });
        }
        let mut entries: Vec<Entry<H>> = Vec::new();
        std::mem::swap(&mut self.entries, &mut entries);
        entries.push(Entry { id: entry_id, control });
        std::mem::swap(&mut self.entries, &mut entries);
    }
}

impl<H> PtyState<H> {
    /// Binds `entry_id` to `control`, replacing any session registered under
    /// that id.  Fails only on a poisoned registry, which it leaves as it was.
    pub fn insert(&mut self, entry_id: String, control: SessionControl<H>) -> (result: Result<
        (),
        AppError,
    >)
        ensures
            match result {
                Ok(()) => !old(self)@.poisoned && final(self)@ == old(self)@.with_session(
                    entry_id@,
                    control,
                ),
                Err(error) => error is StatePoisoned && old(self)@.poisoned && final(self)@ == old(
                    self,
                )@,
            },
    {
        if self.poisoned {
            return Err(AppError::StatePoisoned);
        }
        match self.position(entry_id.as_str()) {
            Some(i) => {
                let _replaced = self.take_at(i);
            },
            None => {},
        }
        let ghost bound = control;
        self.add(entry_id, control);
        proof {
            assert(final(self)@.sessions =~= old(self)@.sessions.insert(entry_id@, bound));
        }
        Ok(())
    }
}

impl<H> Default for PtyState<H> {
    /// An empty registry.
    fn default() -> (state: Self)
        ensures
            state@.sessions == Map::<Seq<char>, SessionControl<H>>::empty(),
            !state@.poisoned,
    {
        PtyState::new()
    }
}

/// Looks up the control of `entry_id`.
///
/// Fails with `StatePoisoned` on a poisoned registry and with
/// `SessionNotFound` when the id is not registered.
pub fn get_control<'a, H>(state: &'a PtyState<H>, entry_id: &str) -> (result: Result<
    &'a SessionControl<H>,
    AppError,
>)
    ensures
        match result {
            Ok(control) => state@.refusal(entry_id@) is None && *control
                == state@.sessions[entry_id@],
            Err(error) => state@.refusal(entry_id@) == Some(error),
        },
{
    if state.poisoned {
        return Err(AppError::StatePoisoned);
    }
    match state.position(entry_id) {
        Some(i) => Ok(&state.entries[i].control),
        None => Err(AppError::SessionNotFound),
    }
}

/// Removes `entry_id` from the registry and hands back its control, if it
/// was registered; removing an absent id is no error.
///
/// Fails only on a poisoned registry, which it leaves as it was.
pub fn remove_control<H>(state: &mut PtyState<H>, entry_id: &str) -> (result: Result<
    Option<SessionControl<H>>,
    AppError,
>)
    ensures
        match result {
            Ok(removed) => !old(state)@.poisoned && final(state)@ == old(state)@.without_session(
                entry_id@,
            ) && removed == (if old(state)@.registered(entry_id@) {
                Some(old(state)@.sessions[entry_id@])
            } else {
                None
            }),
            Err(error) => error is StatePoisoned && old(state)@.poisoned && final(state)@ == old(
                state,
            )@,
        },
{
    if state.poisoned {
        return Err(AppError::StatePoisoned);
    }
    match state.position(entry_id) {
        Some(i) => {
            let control = state.take_at(i);
            Ok(Some(control))
        },
        None => {
            proof {
                assert(state@.sessions =~= state@.sessions.remove(entry_id@));
            }
            Ok(None)
        },
    }
}

/// Records a user-initiated stop of `entry_id` and hands back the handle
/// through which its child is to be killed.
pub(crate) fn request_stop<'a, H>(state: &'a mut PtyState<H>, entry_id: &str) -> (result: Result<
    &'a H,
    AppError,
>)
    ensures
        ({
            let before = old(state)@;
            let after = final(state)@;
            &&& after == before.after_stop(entry_id@)
            &&& match result {
                Ok(handle) => before.refusal(entry_id@) is None && *handle
                    == before.sessions[entry_id@].handle,
                Err(error) => before.refusal(entry_id@) == Some(error),
            }
        }),
{
    if state.poisoned {
        return Err(AppError::StatePoisoned);
    }
    match state.position(entry_id) {
        Some(i) => {
            state.request_stop_at(i);
            let shared: &'a PtyState<H> = state;
            proof {
                use_type_invariant(shared);
                lemma_sessions_at(shared.entries@, i as int);
            }
            Ok(&shared.entries[i].control.handle)
        },
        None => Err(AppError::SessionNotFound),
    }
}

/// `handles` are the handles of the sessions `order`, one for one.
pub open spec fn lists_handles<H>(
    sessions: Map<Seq<char>, SessionControl<H>>,
    order: Seq<Seq<char>>,
    handles: Seq<&H>,
) -> bool {
    &&& order.no_duplicates()
    &&& order.to_set() == sessions.dom()
    &&& handles.len() == order.len()
    &&& forall|k: int| 0 <= k < order.len() ==> *#[trigger] handles[k] == sessions[order[k]].handle
}

/// `handles` holds the handle of every session of `sessions` exactly once.
pub open spec fn snapshot_of<H>(
    sessions: Map<Seq<char>, SessionControl<H>>,
    handles: Seq<&H>,
) -> bool {
    exists|order: Seq<Seq<char>>| #[trigger] lists_handles(sessions, order, handles)
}

spec fn ids_of<H>(entries: Seq<Entry<H>>) -> Seq<Seq<char>> {
    Seq::new(entries.len(), |k: int| entries[k].id@)
}

proof fn lemma_ids_enumerate<H>(entries: Seq<Entry<H>>)
    requires
        distinct_ids(entries),
    ensures
        ids_of(entries).no_duplicates(),
        ids_of(entries).to_set() == sessions_of(entries).dom(),
{
    let ids = ids_of(entries);
    assert forall|id: Seq<char>| #[trigger]
        ids.to_set().contains(id) == sessions_of(entries).dom().contains(id) by {
        if ids.to_set().contains(id) {
            let k = choose|k: int| 0 <= k < ids.len() && ids[k] == id;
            assert(holds_id(entries, id, k));
        }
        if sessions_of(entries).dom().contains(id) {
            let k = choose|k: int| holds_id(entries, id, k);
            assert(ids[k] == id);
        }
    }
    assert(ids.to_set() =~= sessions_of(entries).dom());
}

/// Records a stop of every session and hands back the handles through which
/// the children are to be killed.  A poisoned registry is left alone and
/// yields no handle.
pub(crate) fn request_stop_all<'a, H>(state: &'a mut PtyState<H>) -> (handles: Vec<&'a H>)
    ensures
        ({
            let before = old(state)@;
            let after = final(state)@;
            &&& after == before.after_stop_all()
            &&& if before.poisoned {
                handles@.len() == 0
            } else {
                snapshot_of(before.sessions, handles@)
            }
        }),
{
    let mut handles: Vec<&'a H> = Vec::new();
    if state.poisoned {
        return handles;
    }
    proof {
        use_type_invariant(&*state);
    }
    let ghost before = state.entries@;
    let mut entries: Vec<Entry<H>> = Vec::new();
    std::mem::swap(&mut state.entries, &mut entries);
    let mut i: usize = 0;
    while i < entries.len()
        invariant
            i <= entries.len(),
            entries@.len() == before.len(),
            forall|k: int|
                0 <= k < before.len() ==> (#[trigger] entries[k]).id == before[k].id
                    && entries[k].control.handle == before[k].control.handle,
            forall|k: int| 0 <= k < i ==> (#[trigger] entries[k]).control.stop_requested,
        decreases entries.len() - i,
    {
        entries[i].control.stop_requested = true;
        i = i + 1;
    }
    proof {
        let after = entries@;
        assert forall|k: int, l: int|
            0 <= k < after.len() && 0 <= l < after.len() && #[trigger] after[k].id@
                == #[trigger] after[l].id@ implies k == l by {
            assert(after[k].id == before[k].id);
            assert(after[l].id == before[l].id);
        }
        let expected = RegistryView {
            sessions: sessions_of(before),
            poisoned: false,
        }.with_all_stopped();
        assert forall|key: Seq<char>| #[trigger]
            sessions_of(after).contains_key(key) == expected.sessions.contains_key(key) by {
            if sessions_of(after).contains_key(key) {
                let k = choose|k: int| holds_id(after, key, k);
                assert(after[k].id == before[k].id);
                assert(holds_id(before, key, k));
            }
            if sessions_of(before).contains_key(key) {
                let k = choose|k: int| holds_id(before, key, k);
                assert(after[k].id == before[k].id);
                assert(holds_id(after, key, k));
            }
        }
        assert forall|key: Seq<char>| sessions_of(after).contains_key(key) implies #[trigger]
            sessions_of(after)[key] == expected.sessions[key] by {
            let k = choose|k: int| holds_id(after, key, k);
            assert(after[k].id == before[k].id);
            lemma_sessions_at(after, k);
            lemma_sessions_at(before, k);
        }
        assert(sessions_of(after) =~= expected.sessions);
    }
    std::mem::swap(&mut state.entries, &mut entries);
    let shared: &'a PtyState<H> = state;
    let mut j: usize = 0;
    while j < shared.entries.len()
        invariant
            j <= shared.entries.len(),
            shared.entries@.len() == before.len(),
            handles@.len() == j,
            forall|k: int|
                0 <= k < before.len() ==> (#[trigger] shared.entries[k]).id == before[k].id
                    && shared.entries[k].control.handle == before[k].control.handle,
            forall|k: int| 0 <= k < j ==> *#[trigger] handles[k] == before[k].control.handle,
        decreases shared.entries.len() - j,
    {
        handles.push(&shared.entries[j].control.handle);
        j = j + 1;
    }
    proof {
        lemma_ids_enumerate(before);
        let order = ids_of(before);
        assert forall|k: int| 0 <= k < order.len() implies *#[trigger] handles[k] == sessions_of(
            before,
        )[order[k]].handle by {
            lemma_sessions_at(before, k);
        }
        assert(lists_handles(sessions_of(before), order, handles@));
    }
    handles
}

} // verus!
