//! What holds of the `wasi_webgpu_v0` imports together.

use std::sync::Arc;

use tokio::sync::Notify;
use vstd::prelude::*;

use super::background::BackgroundTask;
use super::waitable_set_wait::WaitStepView;
use crate::state::webgpu::{WaitOutcomeView, WaitableKind, WebgpuErrno, WebgpuView};

verus! {

/// Where the embedder does not allow the namespace, no import changes the
/// tables or guest memory, and each answers `CapabilityDenied`. A wait on
/// something that is no handle is the one exception: it answers `BadHandle`.
pub proof fn law_denied_imports_change_nothing(
    tables: WebgpuView,
    mem: Seq<u8>,
    handle: i32,
    set: i32,
    value: i32,
    delay_ms: i32,
    out_ptr: i32,
)
    ensures
        ({
            let denied = Err::<(), WebgpuErrno>(WebgpuErrno::CapabilityDenied);
            &&& super::future_drop::future_dropped(false, tables, handle) == (tables, denied)
            &&& super::subtask_drop::subtask_dropped(false, tables, handle) == (tables, denied)
            &&& super::waitable_join::joined(false, tables, handle, set) == (tables, denied)
            &&& super::waitable_set_new::set_made(false, tables, mem, out_ptr) == (tables, mem, denied)
            &&& super::future_read::future_value_read(false, tables, mem, handle, out_ptr) == (mem, denied)
            &&& super::future_resolve_after::resolution_asked(false, tables, handle, value, delay_ms)
                == Err::<BackgroundTask, WebgpuErrno>(WebgpuErrno::CapabilityDenied)
        }),
        forall|after: WebgpuView, mem_after: Seq<u8>, result: Result<(), WebgpuErrno>|
            super::future_new::future_made(false, tables, mem, out_ptr, after, mem_after, result) ==> {
                &&& after == tables
                &&& mem_after == mem
                &&& result == Err::<(), WebgpuErrno>(WebgpuErrno::CapabilityDenied)
            },
        forall|after: WebgpuView, result: Result<BackgroundTask, WebgpuErrno>|
            super::request_adapter_start::adapter_requested(false, tables, delay_ms, after, result) ==> {
                &&& after == tables
                &&& result == Err::<BackgroundTask, WebgpuErrno>(WebgpuErrno::CapabilityDenied)
            },
        forall|after: WebgpuView, mem_after: Seq<u8>, step: WaitStepView|
            super::waitable_set_wait::wait_stepped(
                false,
                tables,
                mem,
                set,
                out_ptr,
                after,
                mem_after,
                step,
            ) ==> {
                &&& after == tables
                &&& mem_after == mem
                &&& step == WaitStepView::Done(
                    if set < 0 {
                        WebgpuErrno::BadHandle.code()
                    } else {
                        WebgpuErrno::CapabilityDenied.code()
                    },
                )
            },
{
}

/// Once the work that `future_resolve_after` asked for has been done,
/// `future_read` hands the guest the value.
pub proof fn law_a_resolved_future_is_read(
    tables: WebgpuView,
    mem: Seq<u8>,
    future: i32,
    value: i32,
    delay_ms: i32,
    out_value_ptr: i32,
)
    requires
        super::future_resolve_after::resolution_asked(true, tables, future, value, delay_ms) is Ok,
        crate::memory::in_bounds(mem.len(), crate::memory::offset_of(out_value_ptr) as int, 4),
    ensures
        ({
            let task = super::future_resolve_after::resolution_asked(
                true,
                tables,
                future,
                value,
                delay_ms,
            )->Ok_0;
            let resolved = tables.resolve(task.handle, task.payload);
            let (mem_after, result) = super::future_read::future_value_read(
                true,
                resolved,
                mem,
                future,
                out_value_ptr,
            );
            &&& result == Ok::<(), WebgpuErrno>(())
            &&& crate::memory::u32_at(mem_after, crate::memory::offset_of(out_value_ptr) as int)
                == crate::memory::offset_of(value)
        }),
{
    crate::memory::law_u32_read_after_write(
        mem,
        crate::memory::offset_of(out_value_ptr),
        crate::memory::offset_of(value),
    );
}

/// A future that nothing has filled in answers `Blocked`, and guest memory is
/// left alone.
pub proof fn law_a_pending_future_blocks(
    tables: WebgpuView,
    mem: Seq<u8>,
    future: i32,
    out_value_ptr: i32,
)
    requires
        future >= 0,
        tables.names(future as u32, WaitableKind::Future),
        tables.pending(future as u32),
    ensures
        super::future_read::future_value_read(true, tables, mem, future, out_value_ptr) == (
            mem,
            Err::<(), WebgpuErrno>(WebgpuErrno::Blocked),
        ),
{
}

/// A future or a subtask can be released once, resolved or not, and only as
/// what it is. Background work that comes too late resolves nothing.
pub proof fn law_a_release_is_final(tables: WebgpuView, handle: i32, payload: u32)
    requires
        handle >= 0,
    ensures
        ({
            let (after, result) = super::future_drop::future_dropped(true, tables, handle);
            &&& result is Ok <==> tables.names(handle as u32, WaitableKind::Future)
            &&& super::future_drop::future_dropped(true, after, handle) == (
                after,
                Err::<(), WebgpuErrno>(WebgpuErrno::BadHandle),
            )
            &&& result is Ok ==> after.resolve(handle as u32, payload) == after
        }),
        ({
            let (after, result) = super::subtask_drop::subtask_dropped(true, tables, handle);
            &&& result is Ok <==> tables.names(handle as u32, WaitableKind::Subtask)
            &&& super::subtask_drop::subtask_dropped(true, after, handle) == (
                after,
                Err::<(), WebgpuErrno>(WebgpuErrno::BadHandle),
            )
            &&& result is Ok ==> after.resolve(handle as u32, payload) == after
        }),
{
}

/// A request for an adapter whose work could not be handed to the task pool
/// leaves no waitable behind: the tables hold what they held before, and the
/// handle is spent.
pub proof fn law_a_refused_request_leaves_nothing_behind(
    before: WebgpuView,
    mem: Seq<u8>,
    delay_ms: i32,
    requested: WebgpuView,
    task: BackgroundTask,
    out_subtask_ptr: i32,
)
    requires
        before.wf(),
        super::request_adapter_start::adapter_requested(true, before, delay_ms, requested, Ok(task)),
    ensures
        super::request_adapter_start::adapter_request_spawned(
            requested,
            mem,
            task.handle,
            false,
            out_subtask_ptr,
        ) == (
            WebgpuView { issued: task.handle, ..before },
            mem,
            Err::<(), WebgpuErrno>(WebgpuErrno::Unsupported),
        ),
{
    let after = requested.drop_waitable(task.handle, WaitableKind::Subtask);
    assert(!before.waitables.contains_key(task.handle));
    assert(before.waitables.remove(task.handle) =~= before.waitables);
    assert(after =~= (WebgpuView { issued: task.handle, ..before }));
}

/// A step of a wait has one outcome.
pub proof fn law_a_step_has_one_outcome(
    allow: bool,
    tables: WebgpuView,
    mem: Seq<u8>,
    set: i32,
    out_event_ptr: i32,
    first: (WebgpuView, Seq<u8>, WaitStepView),
    second: (WebgpuView, Seq<u8>, WaitStepView),
)
    requires
        super::waitable_set_wait::wait_stepped(
            allow,
            tables,
            mem,
            set,
            out_event_ptr,
            first.0,
            first.1,
            first.2,
        ),
        super::waitable_set_wait::wait_stepped(
            allow,
            tables,
            mem,
            set,
            out_event_ptr,
            second.0,
            second.1,
            second.2,
        ),
    ensures
        first == second,
{
    if set >= 0 && allow {
        let a = choose|answer: Result<WaitOutcomeView, WebgpuErrno>| #[trigger]
            tables.poll(set as u32, answer) && first == super::waitable_set_wait::wait_answered(
                tables,
                mem,
                set as u32,
                answer,
                out_event_ptr,
            );
        let b = choose|answer: Result<WaitOutcomeView, WebgpuErrno>| #[trigger]
            tables.poll(set as u32, answer) && second == super::waitable_set_wait::wait_answered(
                tables,
                mem,
                set as u32,
                answer,
                out_event_ptr,
            );
        crate::state::webgpu_laws::law_a_look_has_one_answer(tables, set as u32, a, b);
    }
}

/// A wait that succeeds tells of a member that has resolved, the first in the
/// order of joining while all before it are pending: the event in guest memory
/// is its handle and its payload. Afterwards it is a member of no set, so it is
/// not told of again; every other member of every set is left, and no waitable
/// was touched.
pub proof fn law_a_wait_delivers_one_event(
    tables: WebgpuView,
    mem: Seq<u8>,
    set: i32,
    out_event_ptr: i32,
    after: WebgpuView,
    mem_after: Seq<u8>,
)
    requires
        super::waitable_set_wait::wait_stepped(
            true,
            tables,
            mem,
            set,
            out_event_ptr,
            after,
            mem_after,
            WaitStepView::Done(WebgpuErrno::Success.code()),
        ),
    ensures
        ({
            let at = crate::memory::offset_of(out_event_ptr) as int;
            let members = tables.sets[set as u32];
            let handle = crate::memory::u32_at(mem_after, at);
            &&& set >= 0
            &&& tables.sets.contains_key(set as u32)
            &&& members.contains(handle)
            &&& tables.resolved_with(handle, crate::memory::u32_at(mem_after, at + 4))
            &&& exists|i: int| #[trigger] tables.first_settled(members, i) && members[i] == handle
            &&& after.waitables == tables.waitables
            &&& forall|other: u32| #[trigger]
                tables.sets.contains_key(other) ==> {
                    &&& after.sets.contains_key(other)
                    &&& !after.sets[other].contains(handle)
                    &&& forall|member: u32|
                        member != handle && tables.sets[other].contains(member)
                            ==> #[trigger] after.sets[other].contains(member)
                }
        }),
{
    let at = crate::memory::offset_of(out_event_ptr);
    let answer = choose|answer: Result<WaitOutcomeView, WebgpuErrno>| #[trigger]
        tables.poll(set as u32, answer) && (
            after,
            mem_after,
            WaitStepView::Done(WebgpuErrno::Success.code()),
        ) == super::waitable_set_wait::wait_answered(tables, mem, set as u32, answer, out_event_ptr);
    match answer {
        Ok(WaitOutcomeView::Ready(handle, payload)) => {
            lemma_event_reads_back(mem, at, handle, payload);
            let members = tables.sets[set as u32];
            let i = choose|i: int| #[trigger]
                tables.first_settled(members, i) && members[i] == handle && tables.resolved_with(
                    handle,
                    payload,
                );
            assert(members.contains(handle));
            assert forall|other: u32| #[trigger] tables.sets.contains_key(other) implies {
                &&& after.sets.contains_key(other)
                &&& !after.sets[other].contains(handle)
                &&& forall|member: u32|
                    member != handle && tables.sets[other].contains(member) ==> #[trigger] after.sets[other].contains(
                        member,
                    )
            } by {
                crate::state::webgpu_laws::law_an_event_is_delivered_once(
                    tables,
                    set as u32,
                    handle,
                    other,
                );
            }
        },
        _ => {},
    }
}

/// An event reads back as the handle and the payload it was made of.
proof fn lemma_event_reads_back(mem: Seq<u8>, at: u32, handle: u32, payload: u32)
    requires
        crate::memory::in_bounds(mem.len(), at as int, 8),
    ensures
        ({
            let event = super::waitable_set_wait::event_bytes(handle, payload);
            let after = crate::memory::splice(mem, at as int, event);
            &&& event.len() == 8
            &&& crate::memory::u32_at(after, at as int) == handle
            &&& crate::memory::u32_at(after, at + 4) == payload
        }),
{
    let event = super::waitable_set_wait::event_bytes(handle, payload);
    let after = crate::memory::splice(mem, at as int, event);
    let first = crate::memory::u32_bytes(handle);
    let second = crate::memory::u32_bytes(payload);
    assert(first.len() == 4 && second.len() == 4);
    assert forall|i: int| 0 <= i < 4 implies after[at + i] == first[i] && after[at + 4 + i] == second[i] by {
        assert(event[i] == first[i]);
        assert(event[4 + i] == second[i]);
    }
    assert(after[at + 0] == first[0] && after[at + 4 + 0] == second[0]);
    crate::memory::lemma_u32_of_bytes(after, at as int, handle);
    crate::memory::lemma_u32_of_bytes(after, at + 4, payload);
}

/// A wait suspends only while every member is pending: it changes nothing, and
/// hands out one thing to await for each member, so at least one.
pub proof fn law_a_suspended_wait_has_only_pending_members(
    tables: WebgpuView,
    mem: Seq<u8>,
    set: i32,
    out_event_ptr: i32,
    after: WebgpuView,
    mem_after: Seq<u8>,
    waits: Seq<(u32, Arc<Notify>)>,
)
    requires
        super::waitable_set_wait::wait_stepped(
            true,
            tables,
            mem,
            set,
            out_event_ptr,
            after,
            mem_after,
            WaitStepView::Suspend(waits),
        ),
    ensures
        ({
            let members = tables.sets[set as u32];
            &&& set >= 0
            &&& tables.sets.contains_key(set as u32)
            &&& after == tables
            &&& mem_after == mem
            &&& waits.len() == members.len()
            &&& waits.len() > 0
            &&& forall|i: int|
                0 <= i < members.len() ==> tables.pending(members[i]) && #[trigger] waits[i] == tables.wait_on(
                    members[i],
                )
        }),
{
}

/// Resolving any member ends a suspended wait: it wakes what the wait awaits for
/// that member, and the next step delivers the member's handle and payload, if
/// the event fits into guest memory.
pub proof fn law_resolving_a_member_ends_a_wait(
    tables: WebgpuView,
    mem: Seq<u8>,
    set: i32,
    out_event_ptr: i32,
    waits: Seq<(u32, Arc<Notify>)>,
    i: int,
    payload: u32,
    after: WebgpuView,
    mem_after: Seq<u8>,
    step: WaitStepView,
)
    requires
        super::waitable_set_wait::wait_stepped(
            true,
            tables,
            mem,
            set,
            out_event_ptr,
            tables,
            mem,
            WaitStepView::Suspend(waits),
        ),
        0 <= i < waits.len(),
        super::waitable_set_wait::wait_stepped(
            true,
            tables.resolve(waits[i].0, payload),
            mem,
            set,
            out_event_ptr,
            after,
            mem_after,
            step,
        ),
    ensures
        tables.wakes(waits[i].0) == Some(waits[i].1),
        ({
            let at = crate::memory::offset_of(out_event_ptr) as int;
            if crate::memory::in_bounds(mem.len(), at, 8) {
                &&& step == WaitStepView::Done(WebgpuErrno::Success.code())
                &&& crate::memory::u32_at(mem_after, at) == waits[i].0
                &&& crate::memory::u32_at(mem_after, at + 4) == payload
            } else {
                &&& step == WaitStepView::Done(WebgpuErrno::MissingMemory.code())
                &&& after == tables.resolve(waits[i].0, payload)
                &&& mem_after == mem
            }
        }),
{
    let members = tables.sets[set as u32];
    let resolved = tables.resolve(waits[i].0, payload);
    assert(tables.pending(members[i]));
    assert(waits[i] == tables.wait_on(members[i]));
    assert forall|j: int|
        0 <= j < members.len() && members[j] != members[i] implies resolved.pending(#[trigger] members[j]) by {
        assert(tables.pending(members[j]));
    }
    lemma_resolved_member_is_told(resolved, mem, set, out_event_ptr, i, payload, after, mem_after, step);
}

/// A step of a wait on a set of which one member has resolved and the others are
/// pending delivers that member.
proof fn lemma_resolved_member_is_told(
    tables: WebgpuView,
    mem: Seq<u8>,
    set: i32,
    out_event_ptr: i32,
    i: int,
    payload: u32,
    after: WebgpuView,
    mem_after: Seq<u8>,
    step: WaitStepView,
)
    requires
        set >= 0,
        tables.sets.contains_key(set as u32),
        0 <= i < tables.sets[set as u32].len(),
        tables.resolved_with(tables.sets[set as u32][i], payload),
        forall|j: int|
            0 <= j < tables.sets[set as u32].len() && tables.sets[set as u32][j]
                != tables.sets[set as u32][i] ==> tables.pending(#[trigger] tables.sets[set as u32][j]),
        super::waitable_set_wait::wait_stepped(
            true,
            tables,
            mem,
            set,
            out_event_ptr,
            after,
            mem_after,
            step,
        ),
    ensures
        ({
            let at = crate::memory::offset_of(out_event_ptr) as int;
            let handle = tables.sets[set as u32][i];
            if crate::memory::in_bounds(mem.len(), at, 8) {
                &&& step == WaitStepView::Done(WebgpuErrno::Success.code())
                &&& crate::memory::u32_at(mem_after, at) == handle
                &&& crate::memory::u32_at(mem_after, at + 4) == payload
                &&& after == tables.remove_from_set(set as u32, handle)
            } else {
                &&& step == WaitStepView::Done(WebgpuErrno::MissingMemory.code())
                &&& after == tables
                &&& mem_after == mem
            }
        }),
{
    let at = crate::memory::offset_of(out_event_ptr);
    let handle = tables.sets[set as u32][i];
    let answer = choose|answer: Result<WaitOutcomeView, WebgpuErrno>| #[trigger]
        tables.poll(set as u32, answer) && (after, mem_after, step)
            == super::waitable_set_wait::wait_answered(tables, mem, set as u32, answer, out_event_ptr);
    crate::state::webgpu_laws::law_the_resolved_member_is_delivered(tables, set as u32, i, payload, answer);
    assert(crate::memory::u32_bytes(handle).len() == 4);
    assert(crate::memory::u32_bytes(payload).len() == 4);
    if crate::memory::in_bounds(mem.len(), at as int, 8) {
        lemma_event_reads_back(mem, at, handle, payload);
    }
}

/// The whole protocol: a request that was started, joined to a new set and
/// resolved in the background is what a wait on the set tells the guest of, with
/// the adapter's handle as its payload; the set is then empty.
pub proof fn law_start_join_wait(
    before: WebgpuView,
    mem: Seq<u8>,
    delay_ms: i32,
    requested: WebgpuView,
    task: BackgroundTask,
    set: u32,
    out_event_ptr: i32,
    after: WebgpuView,
    mem_after: Seq<u8>,
    step: WaitStepView,
)
    requires
        before.wf(),
        super::request_adapter_start::adapter_requested(true, before, delay_ms, requested, Ok(task)),
        requested.issues(set),
        set <= i32::MAX,
        crate::memory::in_bounds(mem.len(), crate::memory::offset_of(out_event_ptr) as int, 8),
        super::waitable_set_wait::wait_stepped(
            true,
            requested.with_set(set).join(task.handle, set).resolve(task.handle, task.payload),
            mem,
            set as i32,
            out_event_ptr,
            after,
            mem_after,
            step,
        ),
    ensures
        super::waitable_join::joined(true, requested.with_set(set), task.handle as i32, set as i32).1
            == Ok::<(), WebgpuErrno>(()),
        ({
            let at = crate::memory::offset_of(out_event_ptr) as int;
            &&& step == WaitStepView::Done(WebgpuErrno::Success.code())
            &&& crate::memory::u32_at(mem_after, at) == task.handle
            &&& crate::memory::u32_at(mem_after, at + 4)
                == super::request_adapter_start::FAKE_ADAPTER_ID
            &&& after.sets[set].len() == 0
        }),
{
    let tables = requested.with_set(set).join(task.handle, set).resolve(task.handle, task.payload);
    assert(tables.sets[set] == Seq::<u32>::empty().push(task.handle));
    assert(tables.sets[set][0] == task.handle);
    lemma_resolved_member_is_told(
        tables,
        mem,
        set as i32,
        out_event_ptr,
        0,
        task.payload,
        after,
        mem_after,
        step,
    );
    assert(tables.sets[set].drop_last() =~= Seq::<u32>::empty());
    assert(crate::state::webgpu::without(Seq::<u32>::empty(), task.handle) == Seq::<u32>::empty());
    assert(crate::state::webgpu::without(tables.sets[set], task.handle) == Seq::<u32>::empty());
}

} // verus!
