//! Handle tables of the `wasi_webgpu_v0` host imports.
//!
//! A subtask (started, then resolved with a payload) and a future (created
//! empty, then written with a value) live the same life: pending, with a
//! [`Notify`] on which waiters park, or resolved, with a `u32`. Both are entries
//! of one table, tagged with a [`WaitableKind`] that only the kind-specific
//! operations look at. A waitable set holds up to [`MAX_WAITABLES_PER_SET`]
//! handles of either kind, in the order in which they were joined.

use std::collections::HashMap;
use std::sync::Arc;

use tokio::sync::Notify;
use vstd::prelude::*;

use super::wake::{wake, Woken};

verus! {

broadcast use vstd::std_specs::hash::group_hash_axioms;

/// How many waitables one set can hold.
pub const MAX_WAITABLES_PER_SET: usize = 8;

/// Status codes of the `wasi_webgpu_v0` host imports.
#[derive(Debug, Clone, Copy, PartialEq, Eq, Structural)]
pub enum WebgpuErrno {
    Success,
    /// The engine does not support async execution.
    Unsupported,
    /// The embedder did not allow these imports.
    CapabilityDenied,
    /// A pointer argument fell outside guest memory.
    MissingMemory,
    /// The handle was never issued, was already released, or names a waitable
    /// of the wrong kind for the operation.
    BadHandle,
    /// The set already holds [`MAX_WAITABLES_PER_SET`] members.
    SetOccupied,
    /// The set has no members.
    SetEmpty,
    /// The 32-bit handle counter is exhausted.
    TooManyHandles,
    /// The future has no value yet.
    Blocked,
}

impl WebgpuErrno {
    /// The status code of an errno.
    pub open spec fn code(self) -> int {
        match self {
            WebgpuErrno::Success => 0int,
            WebgpuErrno::Unsupported => -1,
            WebgpuErrno::CapabilityDenied => -2,
            WebgpuErrno::MissingMemory => -3,
            WebgpuErrno::BadHandle => -4,
            WebgpuErrno::SetOccupied => -5,
            WebgpuErrno::SetEmpty => -6,
            WebgpuErrno::TooManyHandles => -7,
            WebgpuErrno::Blocked => -8,
        }
    }

    /// The status code as the `i32` that a host import returns.
    pub fn to_i32(self) -> (code: i32)
        ensures
            code == self.code(),
    {
        match self {
            WebgpuErrno::Success => 0,
            WebgpuErrno::Unsupported => -1,
            WebgpuErrno::CapabilityDenied => -2,
            WebgpuErrno::MissingMemory => -3,
            WebgpuErrno::BadHandle => -4,
            WebgpuErrno::SetOccupied => -5,
            WebgpuErrno::SetEmpty => -6,
            WebgpuErrno::TooManyHandles => -7,
            WebgpuErrno::Blocked => -8,
        }
    }
}

/// Which resource type a [`WaitableEntry`] stands for.
#[derive(Debug, Clone, Copy, PartialEq, Eq, Structural)]
pub enum WaitableKind {
    Subtask,
    Future,
}

/// `Notify::new` makes a `Notify` on which nobody waits. Nothing is claimed of
/// the value: what it stores is not visible.
pub assume_specification[ Notify::new ]() -> Notify
;

/// `Arc::clone` gives another pointer to the same `Notify`.
#[verifier::external_body]
fn share(notify: &Arc<Notify>) -> (shared: Arc<Notify>)
    ensures
        shared == *notify,
{
    notify.clone()
}

/// How far a waitable has come.
#[derive(Debug)]
pub enum SlotState {
    Pending(Arc<Notify>),
    Resolved(u32),
}

/// One subtask or future.
#[derive(Debug)]
pub struct WaitableEntry {
    pub kind: WaitableKind,
    pub slot: SlotState,
}

/// What a look at a waitable set found.
#[derive(Debug)]
pub enum WaitOutcome {
    /// A member has resolved: its handle and its payload.
    Ready(u32, u32),
    /// Every member is pending: each handle with what to await before looking
    /// again. Never empty.
    Pending(Vec<(u32, Arc<Notify>)>),
}

/// What a [`WaitOutcome`] holds.
pub enum WaitOutcomeView {
    Ready(u32, u32),
    Pending(Seq<(u32, Arc<Notify>)>),
}

impl View for WaitOutcome {
    type V = WaitOutcomeView;

    open spec fn view(&self) -> WaitOutcomeView {
        match self {
            WaitOutcome::Ready(handle, payload) => WaitOutcomeView::Ready(*handle, *payload),
            WaitOutcome::Pending(waits) => WaitOutcomeView::Pending(waits@),
        }
    }
}

/// The members other than `waitable`, in their order.
pub open spec fn without(members: Seq<u32>, waitable: u32) -> Seq<u32>
    decreases members.len(),
{
    if members.len() == 0 {
        members
    } else if members.last() == waitable {
        without(members.drop_last(), waitable)
    } else {
        without(members.drop_last(), waitable).push(members.last())
    }
}

/// Taking a waitable out of a list keeps exactly the others.
pub proof fn lemma_without(members: Seq<u32>, waitable: u32)
    ensures
        without(members, waitable).len() <= members.len(),
        forall|member: u32| #[trigger]
            without(members, waitable).contains(member) <==> members.contains(member) && member != waitable,
    decreases members.len(),
{
    if members.len() > 0 {
        let init = members.drop_last();
        let kept = without(init, waitable);
        lemma_without(init, waitable);
        assert(members == init.push(members.last()));
        assert forall|member: u32| #[trigger]
            without(members, waitable).contains(member) implies members.contains(member) && member
            != waitable by {
            if member != members.last() {
                let i = choose|i: int|
                    0 <= i < without(members, waitable).len() && without(members, waitable)[i] == member;
                assert(kept[i] == member);
                assert(kept.contains(member));
                let j = choose|j: int| 0 <= j < init.len() && init[j] == member;
                assert(members[j] == member);
            } else {
                if members.last() == waitable {
                    assert(kept.contains(member));
                }
                assert(members[members.len() - 1] == member);
            }
        }
        assert forall|member: u32|
            members.contains(member) && member != waitable implies #[trigger] without(
            members,
            waitable,
        ).contains(member) by {
            let i = choose|i: int| 0 <= i < members.len() && members[i] == member;
            if i < init.len() {
                assert(init[i] == member);
                assert(kept.contains(member));
                let j = choose|j: int| 0 <= j < kept.len() && kept[j] == member;
                assert(without(members, waitable)[j] == member);
            } else {
                assert(without(members, waitable)[kept.len() as int] == member);
            }
        }
    }
}

/// What the tables hold: the last handle issued, the waitables, and the members
/// of each waitable set in the order of joining.
#[verifier::ext_equal]
pub struct WebgpuView {
    pub issued: u32,
    pub waitables: Map<u32, WaitableEntry>,
    pub sets: Map<u32, Seq<u32>>,
}

impl WebgpuView {
    /// Tables in which nothing was ever registered.
    pub open spec fn empty() -> WebgpuView {
        WebgpuView { issued: 0, waitables: Map::empty(), sets: Map::empty() }
    }

    /// Every handle in the tables was issued, none names both a waitable and a
    /// set, and no set is over its capacity.
    pub open spec fn wf(self) -> bool {
        &&& forall|h: u32| #[trigger] self.waitables.contains_key(h) ==> 0 < h <= self.issued
        &&& forall|s: u32| #[trigger] self.sets.contains_key(s) ==> 0 < s <= self.issued
        &&& forall|h: u32| #[trigger] self.waitables.contains_key(h) ==> !self.sets.contains_key(h)
        &&& forall|s: u32| #[trigger] self.sets.contains_key(s) ==> self.sets[s].len() <= MAX_WAITABLES_PER_SET
        &&& forall|s: u32, i: int|
            self.sets.contains_key(s) && 0 <= i < self.sets[s].len() ==> 0 < #[trigger] self.sets[s][i]
                <= self.issued
    }

    /// `handle` names a waitable of kind `kind`.
    pub open spec fn names(self, handle: u32, kind: WaitableKind) -> bool {
        self.waitables.contains_key(handle) && self.waitables[handle].kind == kind
    }

    /// `handle` names a waitable that is still pending.
    pub open spec fn pending(self, handle: u32) -> bool {
        self.waitables.contains_key(handle) && self.waitables[handle].slot is Pending
    }

    /// `handle` names a waitable that resolved with `payload`.
    pub open spec fn resolved_with(self, handle: u32, payload: u32) -> bool {
        self.waitables.contains_key(handle) && self.waitables[handle].slot == SlotState::Resolved(payload)
    }

    /// The next handle can be issued, and it is `handle`.
    pub open spec fn issues(self, handle: u32) -> bool {
        self.issued < u32::MAX && handle == self.issued + 1
    }

    /// `after` are the tables once a pending waitable of kind `kind` was
    /// registered under the next handle, `handle`.
    pub open spec fn registers(self, handle: u32, kind: WaitableKind, after: WebgpuView) -> bool {
        &&& self.issues(handle)
        &&& after.issued == handle
        &&& after.names(handle, kind)
        &&& after.pending(handle)
        &&& after.waitables.remove(handle) == self.waitables.remove(handle)
        &&& after.sets == self.sets
    }

    /// The tables once an empty waitable set was registered under the next
    /// handle, `handle`.
    pub open spec fn with_set(self, handle: u32) -> WebgpuView {
        WebgpuView { issued: handle, sets: self.sets.insert(handle, Seq::empty()), ..self }
    }

    /// The tables after `handle` resolved with `payload`.
    pub open spec fn resolve(self, handle: u32, payload: u32) -> WebgpuView {
        if self.waitables.contains_key(handle) {
            WebgpuView {
                waitables: self.waitables.insert(
                    handle,
                    WaitableEntry {
                        kind: self.waitables[handle].kind,
                        slot: SlotState::Resolved(payload),
                    },
                ),
                ..self
            }
        } else {
            self
        }
    }

    /// The tables after a request to release `handle` as a `kind`.
    pub open spec fn drop_waitable(self, handle: u32, kind: WaitableKind) -> WebgpuView {
        if self.names(handle, kind) {
            WebgpuView { waitables: self.waitables.remove(handle), ..self }
        } else {
            self
        }
    }

    /// What a read of future `handle` answers.
    pub open spec fn read_future(self, handle: u32) -> Result<Option<u32>, WebgpuErrno> {
        if !self.names(handle, WaitableKind::Future) {
            Err(WebgpuErrno::BadHandle)
        } else {
            match self.waitables[handle].slot {
                SlotState::Resolved(payload) => Ok(Some(payload)),
                SlotState::Pending(_) => Ok(None),
            }
        }
    }

    /// What joining `waitable` to `set` answers.
    pub open spec fn join_result(self, waitable: u32, set: u32) -> Result<(), WebgpuErrno> {
        if !self.waitables.contains_key(waitable) || !self.sets.contains_key(set) {
            Err(WebgpuErrno::BadHandle)
        } else if self.sets[set].len() >= MAX_WAITABLES_PER_SET {
            Err(WebgpuErrno::SetOccupied)
        } else {
            Ok(())
        }
    }

    /// The tables after a request to join `waitable` to `set`.
    pub open spec fn join(self, waitable: u32, set: u32) -> WebgpuView {
        if self.join_result(waitable, set) is Ok {
            WebgpuView { sets: self.sets.insert(set, self.sets[set].push(waitable)), ..self }
        } else {
            self
        }
    }

    /// The tables after the event of `waitable` was delivered through `set`: the
    /// waitable is no longer a member of that set, nor of any other.
    pub open spec fn remove_from_set(self, set: u32, waitable: u32) -> WebgpuView {
        if self.sets.contains_key(set) && self.waitables.contains_key(waitable) {
            WebgpuView {
                sets: self.sets.map_values(|members: Seq<u32>| without(members, waitable)),
                ..self
            }
        } else {
            self
        }
    }

    /// What waiting on the pending waitable `handle` parks on.
    pub open spec fn wait_on(self, handle: u32) -> (u32, Arc<Notify>) {
        (handle, self.waitables[handle].slot->Pending_0)
    }

    /// What resolving `handle` wakes: what its waiters are parked on, while it is
    /// pending.
    pub open spec fn wakes(self, handle: u32) -> Option<Arc<Notify>> {
        if self.pending(handle) {
            Some(self.wait_on(handle).1)
        } else {
            None
        }
    }

    /// `i` is the first place in `members` whose waitable is not pending.
    pub open spec fn first_settled(self, members: Seq<u32>, i: int) -> bool {
        &&& 0 <= i < members.len()
        &&& !self.pending(members[i])
        &&& forall|j: int| 0 <= j < i ==> self.pending(#[trigger] members[j])
    }

    /// `answer` is what a look at `set` answers. The members are looked at in
    /// the order of joining, and the first that is not pending decides: its
    /// payload, or `BadHandle` where the waitable was released.
    pub open spec fn poll(self, set: u32, answer: Result<WaitOutcomeView, WebgpuErrno>) -> bool {
        let members = self.sets[set];
        if !self.sets.contains_key(set) {
            answer == Err::<WaitOutcomeView, WebgpuErrno>(WebgpuErrno::BadHandle)
        } else if members.len() == 0 {
            answer == Err::<WaitOutcomeView, WebgpuErrno>(WebgpuErrno::SetEmpty)
        } else {
            match answer {
                Ok(WaitOutcomeView::Pending(waits)) => {
                    &&& forall|i: int| 0 <= i < members.len() ==> self.pending(#[trigger] members[i])
                    &&& waits == members.map_values(|handle: u32| self.wait_on(handle))
                },
                Ok(WaitOutcomeView::Ready(handle, payload)) => exists|i: int| #[trigger]
                    self.first_settled(members, i) && members[i] == handle && self.resolved_with(
                        handle,
                        payload,
                    ),
                Err(errno) => errno == WebgpuErrno::BadHandle && exists|i: int| #[trigger]
                    self.first_settled(members, i) && !self.waitables.contains_key(members[i]),
            }
        }
    }
}

/// `after` are the tables after one operation on the tables `before`.
pub open spec fn evolves(before: WebgpuView, after: WebgpuView) -> bool {
    ||| exists|handle: u32, kind: WaitableKind| before.registers(handle, kind, after)
    ||| exists|handle: u32| before.issues(handle) && after == #[trigger] before.with_set(handle)
    ||| exists|handle: u32, payload: u32| after == #[trigger] before.resolve(handle, payload)
    ||| exists|handle: u32, kind: WaitableKind| after == #[trigger] before.drop_waitable(handle, kind)
    ||| exists|waitable: u32, set: u32| after == #[trigger] before.join(waitable, set)
    ||| exists|set: u32, waitable: u32| after == #[trigger] before.remove_from_set(set, waitable)
}

/// What was woken, if anything was.
pub open spec fn woken_notify(woken: Option<Woken>) -> Option<Arc<Notify>> {
    match woken {
        Some(woken) => Some(woken@),
        None => None,
    }
}

/// The handle tables.
#[derive(Debug)]
pub struct WebgpuState {
    seed: u32,
    waitables: HashMap<u32, WaitableEntry>,
    sets: HashMap<u32, Vec<u32>>,
}

impl View for WebgpuState {
    type V = WebgpuView;

    closed spec fn view(&self) -> WebgpuView {
        WebgpuView {
            issued: self.seed,
            waitables: self.waitables@,
            sets: self.sets@.map_values(|members: Vec<u32>| members@),
        }
    }
}

impl Default for WebgpuState {
    fn default() -> (state: WebgpuState)
        ensures
            state@ == WebgpuView::empty(),
            state@.wf(),
    {
        let state = WebgpuState { seed: 0, waitables: HashMap::new(), sets: HashMap::new() };
        assert(state@.sets =~= Map::empty());
        state
    }
}

impl WebgpuState {
    /// Issues the next handle: one more than the last, and an error once there
    /// is no such `u32`.
    fn next_handle(&mut self) -> (result: Result<u32, WebgpuErrno>)
        ensures
            match result {
                Ok(handle) => {
                    &&& old(self)@.issues(handle)
                    &&& final(self)@ == (WebgpuView { issued: handle, ..old(self)@ })
                },
                Err(errno) => {
                    &&& errno == WebgpuErrno::TooManyHandles
                    &&& old(self)@.issued == u32::MAX
                    &&& final(self)@ == old(self)@
                },
            },
    {
        match self.seed.checked_add(1) {
            Some(id) => {
                self.seed = id;
                Ok(id)
            },
            None => Err(WebgpuErrno::TooManyHandles),
        }
    }

    /// Registers a new pending waitable of kind `kind` and returns its handle.
    pub fn insert_pending(&mut self, kind: WaitableKind) -> (result: Result<u32, WebgpuErrno>)
        ensures
            match result {
                Ok(handle) => old(self)@.registers(handle, kind, final(self)@),
                Err(errno) => {
                    &&& errno == WebgpuErrno::TooManyHandles
                    &&& old(self)@.issued == u32::MAX
                    &&& final(self)@ == old(self)@
                },
            },
            old(self)@.wf() ==> final(self)@.wf(),
    {
        let handle: u32 = match self.next_handle() {
            Ok(handle) => handle,
            Err(errno) => return Err(errno),
        };
        let slot = SlotState::Pending(Arc::new(Notify::new()));
        self.waitables.insert(handle, WaitableEntry { kind, slot });
        assert(self@.waitables.remove(handle) =~= old(self)@.waitables.remove(handle));
        Ok(handle)
    }

    /// Marks the waitable `handle` as resolved with `payload` and returns what
    /// its waiters are parked on, if it was pending.
    fn settle(&mut self, handle: u32, payload: u32) -> (parked: Option<Arc<Notify>>)
        ensures
            final(self)@ == old(self)@.resolve(handle, payload),
            parked == old(self)@.wakes(handle),
    {
        match self.waitables.remove(&handle) {
            Some(entry) => {
                let resolved = WaitableEntry {
                    kind: entry.kind,
                    slot: SlotState::Resolved(payload),
                };
                self.waitables.insert(handle, resolved);
                assert(self@.waitables =~= old(self)@.resolve(handle, payload).waitables);
                match entry.slot {
                    SlotState::Pending(notify) => Some(notify),
                    SlotState::Resolved(_) => None,
                }
            },
            None => {
                assert(self@.waitables =~= old(self)@.waitables);
                None
            },
        }
    }

    /// Resolves the waitable `handle` with `payload` and wakes whoever waits on
    /// it, in one step. Does nothing if the waitable was released in the
    /// meantime.
    pub fn resolve_waitable(&mut self, handle: u32, payload: u32) -> (woken: Option<Woken>)
        ensures
            final(self)@ == old(self)@.resolve(handle, payload),
            woken_notify(woken) == old(self)@.wakes(handle),
            old(self)@.wf() ==> final(self)@.wf(),
    {
        match self.settle(handle, payload) {
            Some(notify) => Some(wake(notify)),
            None => None,
        }
    }

    /// Releases `handle`, if it names a waitable of kind `expected_kind`.
    pub fn drop_waitable(&mut self, handle: u32, expected_kind: WaitableKind) -> (result: Result<
        (),
        WebgpuErrno,
    >)
        ensures
            result == (if old(self)@.names(handle, expected_kind) {
                Ok(())
            } else {
                Err(WebgpuErrno::BadHandle)
            }),
            final(self)@ == old(self)@.drop_waitable(handle, expected_kind),
            old(self)@.wf() ==> final(self)@.wf(),
    {
        match self.waitables.get(&handle) {
            Some(entry) => {
                if entry.kind == expected_kind {
                    self.waitables.remove(&handle);
                    assert(self@ == old(self)@.drop_waitable(handle, expected_kind));
                    Ok(())
                } else {
                    Err(WebgpuErrno::BadHandle)
                }
            },
            None => Err(WebgpuErrno::BadHandle),
        }
    }

    /// The value of future `handle`, or `None` while it is pending.
    pub fn read_future(&self, handle: u32) -> (result: Result<Option<u32>, WebgpuErrno>)
        ensures
            result == self@.read_future(handle),
    {
        match self.waitables.get(&handle) {
            Some(entry) => {
                if entry.kind == WaitableKind::Future {
                    match &entry.slot {
                        SlotState::Resolved(payload) => Ok(Some(*payload)),
                        SlotState::Pending(_) => Ok(None),
                    }
                } else {
                    Err(WebgpuErrno::BadHandle)
                }
            },
            None => Err(WebgpuErrno::BadHandle),
        }
    }

    /// Registers a new, empty waitable set and returns its handle.
    pub fn new_waitable_set(&mut self) -> (result: Result<u32, WebgpuErrno>)
        ensures
            match result {
                Ok(handle) => {
                    &&& old(self)@.issues(handle)
                    &&& final(self)@ == old(self)@.with_set(handle)
                },
                Err(errno) => {
                    &&& errno == WebgpuErrno::TooManyHandles
                    &&& old(self)@.issued == u32::MAX
                    &&& final(self)@ == old(self)@
                },
            },
            old(self)@.wf() ==> final(self)@.wf(),
    {
        let handle: u32 = match self.next_handle() {
            Ok(handle) => handle,
            Err(errno) => return Err(errno),
        };
        self.sets.insert(handle, Vec::new());
        assert(self@.sets =~= old(self)@.sets.insert(handle, Seq::empty()));
        Ok(handle)
    }

    /// Joins `waitable` to `set`, of whichever kind it is.
    pub fn join(&mut self, waitable: u32, set: u32) -> (result: Result<(), WebgpuErrno>)
        ensures
            result == old(self)@.join_result(waitable, set),
            final(self)@ == old(self)@.join(waitable, set),
            old(self)@.wf() ==> final(self)@.wf(),
    {
        if !self.waitables.contains_key(&waitable) {
            return Err(WebgpuErrno::BadHandle);
        }
        match self.sets.remove(&set) {
            Some(mut members) => {
                let result = if members.len() >= MAX_WAITABLES_PER_SET {
                    Err(WebgpuErrno::SetOccupied)
                } else {
                    members.push(waitable);
                    Ok(())
                };
                self.sets.insert(set, members);
                assert(self@.sets =~= old(self)@.join(waitable, set).sets);
                result
            },
            None => {
                assert(self@.sets =~= old(self)@.sets);
                Err(WebgpuErrno::BadHandle)
            },
        }
    }

    /// Looks at the members of `set` without blocking.
    pub fn poll_wait(&self, set: u32) -> (result: Result<WaitOutcome, WebgpuErrno>)
        ensures
            self@.poll(
                set,
                match result {
                    Ok(outcome) => Ok(outcome@),
                    Err(errno) => Err(errno),
                },
            ),
    {
        let members: &Vec<u32> = match self.sets.get(&set) {
            Some(members) => members,
            None => return Err(WebgpuErrno::BadHandle),
        };
        if members.is_empty() {
            return Err(WebgpuErrno::SetEmpty);
        }
        let mut pending: Vec<(u32, Arc<Notify>)> = Vec::with_capacity(members.len());
        let mut i: usize = 0;
        while i < members.len()
            invariant
                i <= members.len(),
                self@.sets.contains_key(set),
                members@ == self@.sets[set],
                members@.len() > 0,
                pending@ == members@.take(i as int).map_values(|handle: u32| self@.wait_on(handle)),
                forall|j: int| 0 <= j < i ==> self@.pending(#[trigger] members@[j]),
            decreases members.len() - i,
        {
            let waitable: u32 = members[i];
            match self.waitables.get(&waitable) {
                None => {
                    assert(self@.first_settled(members@, i as int));
                    return Err(WebgpuErrno::BadHandle);
                },
                Some(entry) => match &entry.slot {
                    SlotState::Resolved(payload) => {
                        assert(self@.first_settled(members@, i as int));
                        return Ok(WaitOutcome::Ready(waitable, *payload));
                    },
                    SlotState::Pending(notify) => {
                        pending.push((waitable, share(notify)));
                    },
                },
            }
            i += 1;
        }
        assert(members@.take(i as int) == members@);
        Ok(WaitOutcome::Pending(pending))
    }

    /// The handles of the waitable sets.
    fn set_handles(&self) -> (handles: Vec<u32>)
        ensures
            handles@.no_duplicates(),
            forall|set: u32| #[trigger] self@.sets.contains_key(set) <==> handles@.contains(set),
    {
        let mut handles: Vec<u32> = Vec::with_capacity(self.sets.len());
        let ghost keys: Seq<u32> = vstd::std_specs::iter::IteratorSpec::remaining(&self.sets.keys()).unref();
        for set in it: self.sets.keys()
            invariant
                it.seq().unref() == keys,
                keys.to_set() == self.sets@.dom(),
                handles@ == keys.take(it.index()),
        {
            handles.push(*set);
        }
        assert(keys.take(keys.len() as int) == keys);
        assert forall|set: u32| #[trigger] self@.sets.contains_key(set) <==> handles@.contains(set) by {
            assert(handles@.to_set().contains(set) <==> self.sets@.dom().contains(set));
        }
        handles
    }

    /// Takes `waitable` out of `set`.
    fn leave_set(&mut self, set: u32, waitable: u32)
        requires
            old(self)@.sets.contains_key(set),
        ensures
            final(self)@ == (WebgpuView {
                sets: old(self)@.sets.insert(set, without(old(self)@.sets[set], waitable)),
                ..old(self)@
            }),
    {
        let members: Vec<u32> = match self.sets.remove(&set) {
            Some(members) => members,
            None => return,
        };
        let mut kept: Vec<u32> = Vec::with_capacity(members.len());
        let mut i: usize = 0;
        while i < members.len()
            invariant
                i <= members.len(),
                kept@ == without(members@.take(i as int), waitable),
            decreases members.len() - i,
        {
            assert(members@.take(i + 1).drop_last() == members@.take(i as int));
            if members[i] != waitable {
                kept.push(members[i]);
            }
            i += 1;
        }
        assert(members@.take(i as int) == members@);
        self.sets.insert(set, kept);
        assert(self@.sets =~= old(self)@.sets.insert(set, without(old(self)@.sets[set], waitable)));
    }

    /// Takes `waitable` out of `set` once its event has been delivered through
    /// it, and out of every other set: the event fires once. The waitable itself
    /// stays. Does nothing if there is no such set or no such waitable.
    pub fn remove_from_set(&mut self, set: u32, waitable: u32)
        ensures
            final(self)@ == old(self)@.remove_from_set(set, waitable),
            old(self)@.wf() ==> final(self)@.wf(),
    {
        if !self.sets.contains_key(&set) || !self.waitables.contains_key(&waitable) {
            return;
        }
        let ghost before = self@;
        let handles: Vec<u32> = self.set_handles();
        let mut i: usize = 0;
        while i < handles.len()
            invariant
                i <= handles.len(),
                handles@.no_duplicates(),
                forall|s: u32| #[trigger] before.sets.contains_key(s) <==> handles@.contains(s),
                self@.issued == before.issued,
                self@.waitables == before.waitables,
                forall|s: u32| #[trigger] self@.sets.contains_key(s) <==> before.sets.contains_key(s),
                forall|j: int|
                    0 <= j < i ==> self@.sets[#[trigger] handles@[j]] == without(
                        before.sets[handles@[j]],
                        waitable,
                    ),
                forall|j: int|
                    i <= j < handles@.len() ==> self@.sets[#[trigger] handles@[j]] == before.sets[handles@[j]],
            decreases handles.len() - i,
        {
            assert(handles@.contains(handles@[i as int]));
            self.leave_set(handles[i], waitable);
            i += 1;
        }
        proof {
            let after = before.remove_from_set(set, waitable);
            assert forall|s: u32| before.sets.contains_key(s) implies #[trigger] self@.sets[s]
                == after.sets[s] by {
                let j = choose|j: int| 0 <= j < handles@.len() && handles@[j] == s;
                assert(self@.sets[handles@[j]] == without(before.sets[s], waitable));
            }
            assert(self@.sets =~= after.sets);
            assert forall|s: u32| #[trigger] before.sets.contains_key(s) implies after.sets[s].len()
                <= before.sets[s].len() && forall|k: int|
                0 <= k < after.sets[s].len() ==> before.sets[s].contains(#[trigger] after.sets[s][k]) by {
                lemma_without(before.sets[s], waitable);
                assert forall|k: int| 0 <= k < after.sets[s].len() implies before.sets[s].contains(
                    #[trigger] after.sets[s][k],
                ) by {
                    assert(after.sets[s].contains(after.sets[s][k]));
                }
            }
        }
    }
}

} // verus!
