//! What holds of the `wasi_webgpu_v0` handle tables whatever is done with them.

use vstd::prelude::*;

use super::wake::Woken;
use super::webgpu::{
    MAX_WAITABLES_PER_SET, SlotState, WaitOutcome, WaitOutcomeView, WaitableKind, WebgpuErrno,
    WebgpuState, WebgpuView,
};

verus! {

/// Every operation keeps the tables well formed and never takes a handle back
/// into the counter.
pub proof fn law_operations_keep_the_tables_well_formed(before: WebgpuView, after: WebgpuView)
    requires
        before.wf(),
        super::webgpu::evolves(before, after),
    ensures
        after.wf(),
        before.issued <= after.issued,
{
    assert forall|set: u32, waitable: u32|
        after == #[trigger] before.remove_from_set(set, waitable) implies after.wf() by {
        assert forall|s: u32| #[trigger] after.sets.contains_key(s) implies after.sets[s].len()
            <= before.sets[s].len() && forall|i: int|
            0 <= i < after.sets[s].len() ==> before.sets[s].contains(#[trigger] after.sets[s][i]) by {
            super::webgpu::lemma_without(before.sets[s], waitable);
            assert forall|i: int| 0 <= i < after.sets[s].len() implies before.sets[s].contains(
                #[trigger] after.sets[s][i],
            ) by {
                if after != before {
                    assert(after.sets[s].contains(after.sets[s][i]));
                }
            }
        }
    }
    assert forall|handle: u32, kind: WaitableKind|
        before.registers(handle, kind, after) implies after.wf() by {
        lemma_registered_waitables(before, handle, kind, after);
    }
}

/// Registering a waitable adds its handle to the table and no other.
proof fn lemma_registered_waitables(
    before: WebgpuView,
    handle: u32,
    kind: WaitableKind,
    after: WebgpuView,
)
    requires
        before.registers(handle, kind, after),
    ensures
        forall|h: u32|
            h != handle ==> (#[trigger] after.waitables.contains_key(h)
                <==> before.waitables.contains_key(h)),
        forall|h: u32|
            h != handle && before.waitables.contains_key(h) ==> #[trigger] after.waitables[h]
                == before.waitables[h],
{
    assert forall|h: u32| h != handle implies (#[trigger] after.waitables.contains_key(h)
        <==> before.waitables.contains_key(h)) by {
        assert(after.waitables.remove(handle).contains_key(h) == before.waitables.remove(
            handle,
        ).contains_key(h));
    }
    assert forall|h: u32| h != handle && before.waitables.contains_key(h) implies #[trigger] after.waitables[h]
        == before.waitables[h] by {
        assert(after.waitables.remove(handle)[h] == before.waitables.remove(handle)[h]);
    }
}

/// A handle that is issued is new: no waitable and no set has it.
pub proof fn law_issued_handles_are_fresh(view: WebgpuView, handle: u32)
    requires
        view.wf(),
        view.issues(handle),
    ensures
        !view.waitables.contains_key(handle),
        !view.sets.contains_key(handle),
        forall|s: u32| #[trigger] view.sets.contains_key(s) ==> !view.sets[s].contains(handle),
{
}

/// Registering a waitable changes no other waitable and no set.
pub proof fn law_registration_touches_nothing_else(
    before: WebgpuView,
    handle: u32,
    kind: WaitableKind,
    after: WebgpuView,
    other: u32,
)
    requires
        before.wf(),
        before.registers(handle, kind, after),
        other != handle,
    ensures
        after.waitables.contains_key(other) == before.waitables.contains_key(other),
        before.waitables.contains_key(other) ==> after.waitables[other] == before.waitables[other],
        after.sets == before.sets,
{
    lemma_registered_waitables(before, handle, kind, after);
}

/// A released handle is never valid again, whatever is done with the tables.
pub proof fn law_released_handles_stay_released(before: WebgpuView, after: WebgpuView, handle: u32)
    requires
        before.wf(),
        super::webgpu::evolves(before, after),
        handle <= before.issued,
        !before.waitables.contains_key(handle),
    ensures
        !after.waitables.contains_key(handle),
        handle <= after.issued,
{
    law_operations_keep_the_tables_well_formed(before, after);
    assert forall|h: u32, kind: WaitableKind|
        before.registers(h, kind, after) implies !after.waitables.contains_key(handle) by {
        lemma_registered_waitables(before, h, kind, after);
    }
}

/// The kind of a waitable never changes while its handle is valid.
pub proof fn law_kinds_are_fixed(before: WebgpuView, after: WebgpuView, handle: u32)
    requires
        before.wf(),
        super::webgpu::evolves(before, after),
        before.waitables.contains_key(handle),
        after.waitables.contains_key(handle),
    ensures
        after.waitables[handle].kind == before.waitables[handle].kind,
{
    assert forall|h: u32, kind: WaitableKind|
        before.registers(h, kind, after) implies after.waitables[handle].kind
        == before.waitables[handle].kind by {
        lemma_registered_waitables(before, h, kind, after);
    }
}

/// A waitable that resolved never goes back to pending.
pub proof fn law_resolution_is_final(before: WebgpuView, after: WebgpuView, handle: u32)
    requires
        before.wf(),
        super::webgpu::evolves(before, after),
        before.waitables.contains_key(handle),
        !before.pending(handle),
    ensures
        !after.pending(handle),
{
    assert forall|h: u32, kind: WaitableKind|
        before.registers(h, kind, after) implies !after.pending(handle) by {
        lemma_registered_waitables(before, h, kind, after);
    }
}

/// A future reads as the value it was resolved with.
pub proof fn law_resolved_future_reads_its_value(view: WebgpuView, future: u32, value: u32)
    requires
        view.names(future, WaitableKind::Future),
    ensures
        view.resolve(future, value).read_future(future) == Ok::<Option<u32>, WebgpuErrno>(Some(value)),
{
}

/// A new future has no value, and reading it says so.
pub proof fn law_new_future_is_blocked(before: WebgpuView, future: u32, after: WebgpuView)
    requires
        before.registers(future, WaitableKind::Future, after),
    ensures
        after.read_future(future) == Ok::<Option<u32>, WebgpuErrno>(None),
{
}

/// Resolving a waitable that was released meanwhile does nothing.
pub proof fn law_resolving_a_released_waitable_is_a_no_op(
    view: WebgpuView,
    handle: u32,
    kind: WaitableKind,
    payload: u32,
)
    requires
        view.names(handle, kind),
    ensures
        view.drop_waitable(handle, kind).resolve(handle, payload) == view.drop_waitable(handle, kind),
{
}

/// A waitable can be released once, whether or not it has resolved.
pub proof fn law_release_happens_once(view: WebgpuView, handle: u32, kind: WaitableKind)
    requires
        view.names(handle, kind),
    ensures
        !view.drop_waitable(handle, kind).waitables.contains_key(handle),
        forall|again: WaitableKind| !#[trigger] view.drop_waitable(handle, kind).names(handle, again),
{
}

/// An operation of one kind refuses a handle of the other kind and leaves the
/// tables as they were.
pub proof fn law_wrong_kind_is_refused(
    view: WebgpuView,
    handle: u32,
    kind: WaitableKind,
    asked: WaitableKind,
)
    requires
        view.names(handle, kind),
        asked != kind,
    ensures
        !view.names(handle, asked),
        view.drop_waitable(handle, asked) == view,
        kind == WaitableKind::Subtask ==> view.read_future(handle) == Err::<Option<u32>, WebgpuErrno>(
            WebgpuErrno::BadHandle,
        ),
{
}

/// A set at its capacity takes no further member.
pub proof fn law_a_full_set_refuses(view: WebgpuView, waitable: u32, set: u32)
    requires
        view.waitables.contains_key(waitable),
        view.sets.contains_key(set),
        view.sets[set].len() >= MAX_WAITABLES_PER_SET,
    ensures
        view.join_result(waitable, set) == Err::<(), WebgpuErrno>(WebgpuErrno::SetOccupied),
        view.join(waitable, set) == view,
{
}

/// A look at a set has one answer.
pub proof fn law_a_look_has_one_answer(
    view: WebgpuView,
    set: u32,
    first: Result<WaitOutcomeView, WebgpuErrno>,
    second: Result<WaitOutcomeView, WebgpuErrno>,
)
    requires
        view.poll(set, first),
        view.poll(set, second),
    ensures
        first == second,
{
    let members = view.sets[set];
    assert forall|i: int, j: int| #[trigger]
        view.first_settled(members, i) && #[trigger] view.first_settled(members, j) implies i == j by {
        if i < j {
            assert(view.pending(members[i]));
        } else if j < i {
            assert(view.pending(members[j]));
        }
    }
}

/// While one member of a set has resolved and the others are pending, a look at
/// the set answers with that member and its payload.
pub proof fn law_the_resolved_member_is_delivered(
    view: WebgpuView,
    set: u32,
    i: int,
    payload: u32,
    answer: Result<WaitOutcomeView, WebgpuErrno>,
)
    requires
        view.sets.contains_key(set),
        0 <= i < view.sets[set].len(),
        view.resolved_with(view.sets[set][i], payload),
        forall|j: int|
            0 <= j < view.sets[set].len() && view.sets[set][j] != view.sets[set][i] ==> view.pending(
                #[trigger] view.sets[set][j],
            ),
        view.poll(set, answer),
    ensures
        answer == Ok::<WaitOutcomeView, WebgpuErrno>(
            WaitOutcomeView::Ready(view.sets[set][i], payload),
        ),
{
    let members = view.sets[set];
    assert(!view.pending(members[i]));
}

/// A look that finds nothing resolved hands out at least one thing to await.
pub proof fn law_a_pending_wait_is_never_empty(view: WebgpuView, set: u32, answer: WaitOutcomeView)
    requires
        view.poll(set, Ok(answer)),
        answer is Pending,
    ensures
        answer->Pending_0.len() > 0,
        answer->Pending_0.len() == view.sets[set].len(),
{
}

/// Whatever is handed out to await is what the resolution of that member wakes:
/// while nothing was done with the member, a waiter that looks first and awaits
/// then is not passed over. Once a member has resolved, resolving it again wakes
/// nothing.
pub proof fn law_a_resolution_wakes_what_is_awaited(
    view: WebgpuView,
    set: u32,
    answer: WaitOutcomeView,
    i: int,
    payload: u32,
)
    requires
        view.poll(set, Ok(answer)),
        answer is Pending,
        0 <= i < answer->Pending_0.len(),
    ensures
        ({
            let (handle, notify) = answer->Pending_0[i];
            &&& view.sets[set][i] == handle
            &&& view.wakes(handle) == Some(notify)
            &&& view.resolve(handle, payload).wakes(handle) is None
        }),
{
    assert(view.pending(view.sets[set][i]));
}

/// Joining and waiting do not depend on the kinds of the waitables.
pub proof fn law_sets_ignore_kinds(
    view: WebgpuView,
    other: WebgpuView,
    waitable: u32,
    set: u32,
    answer: Result<WaitOutcomeView, WebgpuErrno>,
)
    requires
        view.sets == other.sets,
        view.waitables.dom() == other.waitables.dom(),
        forall|h: u32| #[trigger] view.waitables.contains_key(h) ==> view.waitables[h].slot == other.waitables[h].slot,
    ensures
        view.join_result(waitable, set) == other.join_result(waitable, set),
        view.poll(set, answer) == other.poll(set, answer),
{
    assert forall|h: u32| #[trigger] view.waitables.contains_key(h) == other.waitables.contains_key(h) by {
        assert(view.waitables.dom().contains(h) == other.waitables.dom().contains(h));
    }
    lemma_same_slots_same_answers(view, other, set, answer);
    lemma_same_slots_same_answers(other, view, set, answer);
}

/// What one of two tables with the same slots answers, the other answers too.
proof fn lemma_same_slots_same_answers(
    view: WebgpuView,
    other: WebgpuView,
    set: u32,
    answer: Result<WaitOutcomeView, WebgpuErrno>,
)
    requires
        view.sets == other.sets,
        forall|h: u32| #[trigger] view.waitables.contains_key(h) == other.waitables.contains_key(h),
        forall|h: u32| #[trigger] view.waitables.contains_key(h) ==> view.waitables[h].slot == other.waitables[h].slot,
    ensures
        view.poll(set, answer) ==> other.poll(set, answer),
{
    let members = view.sets[set];
    assert forall|h: u32| #[trigger] view.pending(h) == other.pending(h) by {
        assert(view.waitables.contains_key(h) == other.waitables.contains_key(h));
    }
    assert forall|i: int| #[trigger] view.first_settled(members, i) implies other.first_settled(members, i) by {
        assert forall|j: int| 0 <= j < i implies other.pending(#[trigger] members[j]) by {
            assert(view.pending(members[j]));
        }
        assert(view.pending(members[i]) == other.pending(members[i]));
    }
    if view.poll(set, answer) && view.sets.contains_key(set) && members.len() > 0 {
        match answer {
            Ok(WaitOutcomeView::Pending(waits)) => {
                assert forall|i: int| 0 <= i < members.len() implies other.pending(
                    #[trigger] members[i],
                ) && view.wait_on(members[i]) == other.wait_on(members[i]) by {
                    assert(view.pending(members[i]));
                }
                assert(waits =~= members.map_values(|handle: u32| other.wait_on(handle)));
            },
            Ok(WaitOutcomeView::Ready(handle, payload)) => {
                let i = choose|i: int| #[trigger]
                    view.first_settled(members, i) && members[i] == handle && view.resolved_with(
                        handle,
                        payload,
                    );
                assert(other.first_settled(members, i));
                assert(other.resolved_with(handle, payload));
            },
            Err(_) => {
                let i = choose|i: int| #[trigger]
                    view.first_settled(members, i) && !view.waitables.contains_key(members[i]);
                assert(other.first_settled(members, i));
                assert(view.waitables.contains_key(members[i]) == other.waitables.contains_key(members[i]));
            },
        }
    }
}

/// Once its event was delivered through a set, a waitable is a member of no set
/// at all, so the event is not delivered again. Every other member of every set
/// is left, and no waitable is touched.
pub proof fn law_an_event_is_delivered_once(view: WebgpuView, set: u32, waitable: u32, other: u32)
    requires
        view.sets.contains_key(set),
        view.waitables.contains_key(waitable),
        view.sets.contains_key(other),
    ensures
        ({
            let after = view.remove_from_set(set, waitable);
            &&& after.sets.contains_key(other)
            &&& !after.sets[other].contains(waitable)
            &&& forall|member: u32|
                member != waitable && view.sets[other].contains(member) ==> #[trigger] after.sets[other].contains(
                    member,
                )
            &&& after.waitables == view.waitables
            &&& after.issued == view.issued
        }),
{
    super::webgpu::lemma_without(view.sets[other], waitable);
}

/// The status code that each errno has.
pub proof fn law_errnos_have_their_status_codes(errno: WebgpuErrno, code: i32)
    requires
        call_ensures(WebgpuErrno::to_i32, (errno,), code),
    ensures
        code == errno.code(),
        WebgpuErrno::Success.code() == 0,
        WebgpuErrno::Unsupported.code() == -1,
        WebgpuErrno::CapabilityDenied.code() == -2,
        WebgpuErrno::MissingMemory.code() == -3,
        WebgpuErrno::BadHandle.code() == -4,
        WebgpuErrno::SetOccupied.code() == -5,
        WebgpuErrno::SetEmpty.code() == -6,
        WebgpuErrno::TooManyHandles.code() == -7,
        WebgpuErrno::Blocked.code() == -8,
{
}

/// New tables hold nothing, and no handle was issued.
pub proof fn law_new_tables_are_empty(state: WebgpuState)
    requires
        call_ensures(<WebgpuState as Default>::default, (), state),
    ensures
        state@.issued == 0,
        forall|h: u32| !#[trigger] state@.waitables.contains_key(h),
        forall|s: u32| !#[trigger] state@.sets.contains_key(s),
{
}

/// A waitable is registered exactly where a handle is left: under the one behind
/// the last, pending and of the kind that was asked for. Nothing else changes.
pub proof fn law_a_waitable_is_registered_under_the_next_handle(
    state: &mut WebgpuState,
    kind: WaitableKind,
    result: Result<u32, WebgpuErrno>,
)
    requires
        call_ensures(WebgpuState::insert_pending, (state, kind), result),
    ensures
        result is Ok <==> old(state)@.issued < u32::MAX,
        result is Err ==> result->Err_0 == WebgpuErrno::TooManyHandles && final(state)@ == old(state)@,
        result is Ok ==> {
            let handle = result->Ok_0;
            &&& handle == old(state)@.issued + 1
            &&& final(state)@.issued == handle
            &&& final(state)@.sets == old(state)@.sets
            &&& final(state)@.waitables.contains_key(handle)
            &&& final(state)@.waitables[handle].kind == kind
            &&& final(state)@.waitables[handle].slot is Pending
            &&& forall|h: u32|
                h != handle ==> (#[trigger] final(state)@.waitables.contains_key(h)
                    <==> old(state)@.waitables.contains_key(h))
            &&& forall|h: u32|
                h != handle && old(state)@.waitables.contains_key(h) ==> #[trigger] final(state)@.waitables[h]
                    == old(state)@.waitables[h]
        },
{
    if result is Ok {
        lemma_registered_waitables(old(state)@, result->Ok_0, kind, final(state)@);
    }
}

/// A set is registered exactly where a handle is left: under the one behind the
/// last, without members. Nothing else changes.
pub proof fn law_a_set_is_registered_under_the_next_handle(
    state: &mut WebgpuState,
    result: Result<u32, WebgpuErrno>,
)
    requires
        call_ensures(WebgpuState::new_waitable_set, (state,), result),
    ensures
        result is Ok <==> old(state)@.issued < u32::MAX,
        result is Err ==> result->Err_0 == WebgpuErrno::TooManyHandles && final(state)@ == old(state)@,
        result is Ok ==> {
            &&& result->Ok_0 == old(state)@.issued + 1
            &&& final(state)@.issued == old(state)@.issued + 1
            &&& final(state)@.waitables == old(state)@.waitables
            &&& final(state)@.sets == old(state)@.sets.insert(result->Ok_0, Seq::empty())
        },
{
}

/// Resolving a waitable gives it its payload, keeps its kind, and wakes what its
/// waiters are parked on, if it was pending. Nothing else changes; a waitable that
/// is not there is not made.
pub proof fn law_a_resolution_sets_the_payload(
    state: &mut WebgpuState,
    handle: u32,
    payload: u32,
    woken: Option<Woken>,
)
    requires
        call_ensures(WebgpuState::resolve_waitable, (state, handle, payload), woken),
    ensures
        final(state)@.issued == old(state)@.issued,
        final(state)@.sets == old(state)@.sets,
        final(state)@.waitables.dom() == old(state)@.waitables.dom(),
        old(state)@.waitables.contains_key(handle) ==> {
            &&& final(state)@.waitables[handle].slot == SlotState::Resolved(payload)
            &&& final(state)@.waitables[handle].kind == old(state)@.waitables[handle].kind
        },
        forall|h: u32|
            h != handle && old(state)@.waitables.contains_key(h) ==> #[trigger] final(state)@.waitables[h]
                == old(state)@.waitables[h],
        woken is Some <==> old(state)@.waitables.contains_key(handle)
            && old(state)@.waitables[handle].slot is Pending,
        woken is Some ==> old(state)@.waitables[handle].slot == SlotState::Pending(woken->0@),
{
    assert(final(state)@.waitables.dom() =~= old(state)@.waitables.dom());
}

/// A waitable is released exactly where the handle names one of the expected kind,
/// pending or resolved. Nothing else changes: the sets keep their members.
pub proof fn law_a_release_removes_one_waitable(
    state: &mut WebgpuState,
    handle: u32,
    kind: WaitableKind,
    result: Result<(), WebgpuErrno>,
)
    requires
        call_ensures(WebgpuState::drop_waitable, (state, handle, kind), result),
    ensures
        result is Ok <==> old(state)@.waitables.contains_key(handle)
            && old(state)@.waitables[handle].kind == kind,
        result is Err ==> result->Err_0 == WebgpuErrno::BadHandle && final(state)@ == old(state)@,
        final(state)@.issued == old(state)@.issued,
        final(state)@.sets == old(state)@.sets,
        result is Ok ==> final(state)@.waitables == old(state)@.waitables.remove(handle),
{
}

/// A future can be read exactly where the handle names one. It has a value exactly
/// where it has resolved: the one it resolved with.
pub proof fn law_a_future_reads_as_it_resolved(
    state: &WebgpuState,
    handle: u32,
    result: Result<Option<u32>, WebgpuErrno>,
)
    requires
        call_ensures(WebgpuState::read_future, (state, handle), result),
    ensures
        result is Ok <==> state@.waitables.contains_key(handle) && state@.waitables[handle].kind
            == WaitableKind::Future,
        result is Err ==> result->Err_0 == WebgpuErrno::BadHandle,
        result is Ok && result->Ok_0 is None ==> state@.waitables[handle].slot is Pending,
        result is Ok && result->Ok_0 is Some ==> state@.waitables[handle].slot == SlotState::Resolved(
            result->Ok_0->0,
        ),
{
}

/// Joining succeeds exactly where the waitable exists, pending or resolved and of
/// either kind, and the set exists and has room. The set then has the waitable
/// behind the members that it had, and nothing else changes. Where the waitable or
/// the set is missing the answer is `BadHandle`, and `SetOccupied` where there is
/// no room; then nothing changes.
pub proof fn law_joining_appends_a_member(
    state: &mut WebgpuState,
    waitable: u32,
    set: u32,
    result: Result<(), WebgpuErrno>,
)
    requires
        call_ensures(WebgpuState::join, (state, waitable, set), result),
    ensures
        result is Ok <==> {
            &&& old(state)@.waitables.contains_key(waitable)
            &&& old(state)@.sets.contains_key(set)
            &&& old(state)@.sets[set].len() < 8
        },
        result == Err::<(), WebgpuErrno>(WebgpuErrno::BadHandle) <==> {
            ||| !old(state)@.waitables.contains_key(waitable)
            ||| !old(state)@.sets.contains_key(set)
        },
        result is Err ==> result->Err_0 == WebgpuErrno::BadHandle || result->Err_0
            == WebgpuErrno::SetOccupied,
        result is Err ==> final(state)@ == old(state)@,
        final(state)@.issued == old(state)@.issued,
        final(state)@.waitables == old(state)@.waitables,
        result is Ok ==> {
            let before = old(state)@.sets[set];
            let after = final(state)@.sets[set];
            &&& final(state)@.sets.dom() == old(state)@.sets.dom()
            &&& after.len() == before.len() + 1
            &&& after.last() == waitable
            &&& forall|i: int| 0 <= i < before.len() ==> #[trigger] after[i] == before[i]
            &&& forall|s: u32|
                s != set && old(state)@.sets.contains_key(s) ==> #[trigger] final(state)@.sets[s]
                    == old(state)@.sets[s]
        },
{
    if result is Ok {
        assert(final(state)@.sets.dom() =~= old(state)@.sets.dom());
    }
}

/// What a call of `poll_wait` answers, with the contents of the answer.
pub open spec fn looked(result: Result<WaitOutcome, WebgpuErrno>) -> Result<WaitOutcomeView, WebgpuErrno> {
    match result {
        Ok(WaitOutcome::Ready(handle, payload)) => Ok(WaitOutcomeView::Ready(handle, payload)),
        Ok(WaitOutcome::Pending(waits)) => Ok(WaitOutcomeView::Pending(waits@)),
        Err(errno) => Err(errno),
    }
}

/// The first member in the order of joining that is not pending decides what a
/// look at a set answers, whatever the members behind it are: one that has
/// resolved is ready with its payload, and one that was released is a `BadHandle`.
pub proof fn law_the_first_settled_member_decides(
    state: &WebgpuState,
    set: u32,
    result: Result<WaitOutcome, WebgpuErrno>,
    i: int,
)
    requires
        call_ensures(WebgpuState::poll_wait, (state, set), result),
        state@.sets.contains_key(set),
        0 <= i < state@.sets[set].len(),
        forall|j: int|
            0 <= j < i ==> state@.waitables.contains_key(#[trigger] state@.sets[set][j])
                && state@.waitables[state@.sets[set][j]].slot is Pending,
    ensures
        ({
            let member = state@.sets[set][i];
            &&& !state@.waitables.contains_key(member) ==> result == Err::<WaitOutcome, WebgpuErrno>(
                WebgpuErrno::BadHandle,
            )
            &&& state@.waitables.contains_key(member) && state@.waitables[member].slot is Resolved
                ==> result == Ok::<WaitOutcome, WebgpuErrno>(
                WaitOutcome::Ready(member, state@.waitables[member].slot->Resolved_0),
            )
        }),
{
    let members = state@.sets[set];
    let answer = looked(result);
    assert(state@.poll(set, answer));
    assert forall|j: int| 0 <= j < i implies state@.pending(#[trigger] members[j]) by {}
    if !state@.pending(members[i]) {
        assert(state@.first_settled(members, i));
        assert forall|k: int| #[trigger] state@.first_settled(members, k) implies k == i by {
            if k < i {
                assert(state@.pending(members[k]));
            } else if i < k {
                assert(state@.pending(members[i]));
            }
        }
    }
}

/// A look at a set that was never made is a `BadHandle`, and one at a set without
/// members is `SetEmpty`. While all members of a set are pending, it hands out what
/// each of them is to be awaited on, in their order; and only then is a look at a
/// set not decided.
pub proof fn law_a_look_at_pending_members_hands_out_what_to_await(
    state: &WebgpuState,
    set: u32,
    result: Result<WaitOutcome, WebgpuErrno>,
)
    requires
        call_ensures(WebgpuState::poll_wait, (state, set), result),
    ensures
        !state@.sets.contains_key(set) ==> result == Err::<WaitOutcome, WebgpuErrno>(WebgpuErrno::BadHandle),
        state@.sets.contains_key(set) && state@.sets[set].len() == 0 ==> result == Err::<
            WaitOutcome,
            WebgpuErrno,
        >(WebgpuErrno::SetEmpty),
        state@.sets.contains_key(set) && state@.sets[set].len() > 0 && (forall|j: int|
            0 <= j < state@.sets[set].len() ==> state@.waitables.contains_key(#[trigger] state@.sets[set][j])
                && state@.waitables[state@.sets[set][j]].slot is Pending) ==> result is Ok
            && result->Ok_0 is Pending,
        result is Ok && result->Ok_0 is Pending ==> {
            let waits = result->Ok_0->Pending_0@;
            let members = state@.sets[set];
            &&& state@.sets.contains_key(set)
            &&& waits.len() == members.len()
            &&& waits.len() > 0
            &&& forall|j: int|
                0 <= j < members.len() ==> {
                    &&& (#[trigger] waits[j]).0 == members[j]
                    &&& state@.waitables.contains_key(members[j])
                    &&& state@.waitables[members[j]].slot == SlotState::Pending(waits[j].1)
                }
        },
{
    let members = state@.sets[set];
    assert(state@.poll(set, looked(result)));
    if result is Ok && result->Ok_0 is Pending {
        let waits = result->Ok_0->Pending_0@;
        assert forall|j: int| 0 <= j < members.len() implies {
            &&& (#[trigger] waits[j]).0 == members[j]
            &&& state@.waitables.contains_key(members[j])
            &&& state@.waitables[members[j]].slot == SlotState::Pending(waits[j].1)
        } by {
            assert(state@.pending(members[j]));
        }
    }
    if state@.sets.contains_key(set) && members.len() > 0 && (forall|j: int|
        0 <= j < members.len() ==> state@.waitables.contains_key(#[trigger] members[j])
            && state@.waitables[members[j]].slot is Pending) {
        assert forall|i: int| !#[trigger] state@.first_settled(members, i) by {
            if 0 <= i < members.len() {
                assert(state@.waitables.contains_key(members[i]));
            }
        }
    }
}

/// Taking a waitable out of a list leaves the other members as they are and in
/// their order.
proof fn lemma_without_is_a_filter(members: Seq<u32>, waitable: u32)
    ensures
        super::webgpu::without(members, waitable) == members.filter(|member: u32| member != waitable),
    decreases members.len(),
{
    reveal(Seq::filter);
    if members.len() > 0 {
        lemma_without_is_a_filter(members.drop_last(), waitable);
    }
}

/// Taking a waitable out of a set once its event was delivered takes it out of
/// every set, and leaves the other members of every set, in their order. The
/// waitables stay. Where there is no such set or no such waitable, nothing changes.
pub proof fn law_a_delivered_member_leaves_every_set(state: &mut WebgpuState, set: u32, waitable: u32)
    requires
        call_ensures(WebgpuState::remove_from_set, (state, set, waitable), ()),
    ensures
        final(state)@.issued == old(state)@.issued,
        final(state)@.waitables == old(state)@.waitables,
        final(state)@.sets.dom() == old(state)@.sets.dom(),
        !old(state)@.sets.contains_key(set) || !old(state)@.waitables.contains_key(waitable)
            ==> final(state)@.sets == old(state)@.sets,
        old(state)@.sets.contains_key(set) && old(state)@.waitables.contains_key(waitable) ==> forall|s: u32|
            old(state)@.sets.contains_key(s) ==> #[trigger] final(state)@.sets[s]
                == old(state)@.sets[s].filter(|member: u32| member != waitable),
{
    assert(final(state)@.sets.dom() =~= old(state)@.sets.dom());
    assert forall|s: u32|
        old(state)@.sets.contains_key(set) && old(state)@.waitables.contains_key(waitable)
            && old(state)@.sets.contains_key(s) implies #[trigger] final(state)@.sets[s]
        == old(state)@.sets[s].filter(|member: u32| member != waitable) by {
        lemma_without_is_a_filter(old(state)@.sets[s], waitable);
    }
}

} // verus!
