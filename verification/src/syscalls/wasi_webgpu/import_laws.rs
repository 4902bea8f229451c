//! What each of the `wasi_webgpu_v0` imports does: when it succeeds, which code it
//! answers otherwise, and what becomes of the tables and of guest memory.

use vstd::prelude::*;

use super::background::BackgroundTask;
use super::waitable_set_wait::WaitStep;
use crate::backend::NnBackend;
use crate::env::WasiEnv;
use crate::memory::GuestMemory;
use crate::state::wake::Woken;
use crate::state::webgpu::{
    SlotState, WaitOutcomeView, WaitableKind, WebgpuErrno, WebgpuState, WebgpuView,
};

verus! {

/// The process differs in the tables of the namespace at most.
pub open spec fn keeps_the_rest<B: NnBackend>(before: WasiEnv<B>, after: WasiEnv<B>) -> bool {
    &&& after.capabilities == before.capabilities
    &&& after.state.nn == before.state.nn
    &&& after.state.nn_backend == before.state.nn_backend
}

/// The wait is over, and the guest sees `code`.
pub open spec fn ends_with(step: WaitStep, code: int) -> bool {
    step is Done && step->Done_0 == code
}

/// Handles are the integers that are not negative.
pub proof fn law_handles_are_not_negative(raw: i32, result: Result<u32, WebgpuErrno>)
    requires
        call_ensures(super::abi::guest_handle, (raw,), result),
    ensures
        result is Ok <==> raw >= 0,
        result is Ok ==> result->Ok_0 == raw,
        result is Err ==> result->Err_0 == WebgpuErrno::BadHandle,
{
}

/// The guest sees zero for success, and the code of the error otherwise.
pub proof fn law_results_are_answered_by_their_codes(result: Result<(), WebgpuErrno>, code: i32)
    requires
        call_ensures(super::abi::status_of, (result,), code),
    ensures
        result is Ok ==> code == 0,
        result is Err ==> code == result->Err_0.code(),
{
}

/// A delay that is positive is taken as it is; otherwise the default stands for
/// it.
pub proof fn law_delays_are_positive(delay_ms: i32, delay: u32)
    requires
        call_ensures(super::background::guest_delay, (delay_ms,), delay),
    ensures
        delay_ms > 0 ==> delay == delay_ms,
        delay_ms <= 0 ==> delay == 50,
{
}

/// Background work that is done resolves its waitable with its payload, and
/// nothing else.
pub proof fn law_work_that_is_done_resolves_its_waitable(
    task: BackgroundTask,
    state: &mut WebgpuState,
    woken: Option<Woken>,
)
    requires
        call_ensures(BackgroundTask::complete, (task, state), woken),
    ensures
        final(state)@.issued == old(state)@.issued,
        final(state)@.sets == old(state)@.sets,
        final(state)@.waitables.dom() == old(state)@.waitables.dom(),
        old(state)@.waitables.contains_key(task.handle) ==> {
            &&& final(state)@.waitables[task.handle].slot == SlotState::Resolved(task.payload)
            &&& final(state)@.waitables[task.handle].kind == old(state)@.waitables[task.handle].kind
        },
        forall|h: u32|
            h != task.handle && old(state)@.waitables.contains_key(h)
                ==> #[trigger] final(state)@.waitables[h] == old(state)@.waitables[h],
        woken is Some <==> old(state)@.waitables.contains_key(task.handle)
            && old(state)@.waitables[task.handle].slot is Pending,
        woken is Some ==> old(state)@.waitables[task.handle].slot == SlotState::Pending(woken->0@),
{
    assert(final(state)@.waitables.dom() =~= old(state)@.waitables.dom());
}

/// What registering a pending waitable of kind `kind` makes of the tables: it
/// stands under the handle behind the last, and nothing else changes.
pub open spec fn has_one_more(before: WebgpuView, kind: WaitableKind, after: WebgpuView) -> bool {
    let handle = (before.issued + 1) as u32;
    &&& before.issued < u32::MAX
    &&& after.issued == before.issued + 1
    &&& after.sets == before.sets
    &&& after.waitables.contains_key(handle)
    &&& after.waitables[handle].kind == kind
    &&& after.waitables[handle].slot is Pending
    &&& forall|h: u32|
        h != handle ==> (#[trigger] after.waitables.contains_key(h) <==> before.waitables.contains_key(h))
    &&& forall|h: u32|
        h != handle && before.waitables.contains_key(h) ==> #[trigger] after.waitables[h]
            == before.waitables[h]
}

/// Registering a waitable adds it and nothing else.
proof fn lemma_has_one_more(before: WebgpuView, kind: WaitableKind, after: WebgpuView)
    requires
        before.registers((before.issued + 1) as u32, kind, after),
    ensures
        has_one_more(before, kind, after),
{
    let handle = (before.issued + 1) as u32;
    assert forall|h: u32| h != handle implies (#[trigger] after.waitables.contains_key(h)
        <==> before.waitables.contains_key(h)) by {
        assert(after.waitables.remove(handle).contains_key(h) == before.waitables.remove(
            handle,
        ).contains_key(h));
    }
    assert forall|h: u32| h != handle && before.waitables.contains_key(h) implies #[trigger] after.waitables[h]
        == before.waitables[h] by {
        assert(after.waitables.remove(handle)[h] == before.waitables.remove(handle)[h]);
    }
}

/// A request for an adapter is started exactly where the namespace is allowed and
/// a handle is left: a pending subtask is registered under that handle, and the
/// work to be done resolves it with the adapter after the delay.
pub proof fn law_a_started_request_is_a_pending_subtask<B: NnBackend>(
    env: &mut WasiEnv<B>,
    delay_ms: i32,
    result: Result<BackgroundTask, i32>,
)
    requires
        call_ensures(super::request_adapter_start::request_adapter_start::<B>, (env, delay_ms), result),
    ensures
        keeps_the_rest(*old(env), *final(env)),
        ({
            let before = old(env).state.webgpu@;
            let after = final(env).state.webgpu@;
            if !old(env).capabilities.webgpu_spike.allow {
                result is Err && result->Err_0 == -2 && after == before
            } else if before.issued == u32::MAX {
                result is Err && result->Err_0 == -7 && after == before
            } else {
                &&& result is Ok
                &&& result->Ok_0.handle == before.issued + 1
                &&& result->Ok_0.payload == 1
                &&& result->Ok_0.delay_ms == (if delay_ms > 0 {
                    delay_ms as int
                } else {
                    50
                })
                &&& has_one_more(before, WaitableKind::Subtask, after)
            }
        }),
{
    let before = old(env).state.webgpu@;
    let after = final(env).state.webgpu@;
    if result is Ok {
        lemma_has_one_more(before, WaitableKind::Subtask, after);
    }
}

/// Once the work of a request was handed over, the guest is given the handle of
/// the subtask, if there is room for it, and the tables stay as they are. Where the
/// work was refused, the subtask is released again and nothing is written.
pub proof fn law_a_spawned_request_hands_out_its_subtask<B: NnBackend>(
    env: &mut WasiEnv<B>,
    memory: &mut GuestMemory,
    task: BackgroundTask,
    spawned: bool,
    out_subtask_ptr: i32,
    code: i32,
)
    requires
        call_ensures(
            super::request_adapter_start::request_adapter_spawned::<B>,
            (env, memory, task, spawned, out_subtask_ptr),
            code,
        ),
    ensures
        keeps_the_rest(*old(env), *final(env)),
        ({
            let before = old(env).state.webgpu@;
            let after = final(env).state.webgpu@;
            let at = crate::memory::offset_of(out_subtask_ptr) as int;
            if !spawned {
                &&& code == -1
                &&& final(memory)@ == old(memory)@
                &&& after.issued == before.issued
                &&& after.sets == before.sets
                &&& before.waitables.contains_key(task.handle) && before.waitables[task.handle].kind
                    == WaitableKind::Subtask ==> after.waitables == before.waitables.remove(task.handle)
                &&& !(before.waitables.contains_key(task.handle) && before.waitables[task.handle].kind
                    == WaitableKind::Subtask) ==> after.waitables == before.waitables
            } else if at + 4 <= old(memory)@.len() {
                &&& code == 0
                &&& after == before
                &&& crate::memory::differs_by_integer(old(memory)@, final(memory)@, at, task.handle)
            } else {
                code == -3 && after == before && final(memory)@ == old(memory)@
            }
        }),
{
    crate::memory::law_a_written_integer_is_the_difference(
        old(memory)@,
        crate::memory::offset_of(out_subtask_ptr),
        task.handle,
    );
}

/// A future is made exactly where the namespace is allowed and a handle is left:
/// pending, under that handle, which the guest is given if there is room for it.
pub proof fn law_a_new_future_is_pending<B: NnBackend>(
    env: &mut WasiEnv<B>,
    memory: &mut GuestMemory,
    out_future_ptr: i32,
    code: i32,
)
    requires
        call_ensures(super::future_new::future_new::<B>, (env, memory, out_future_ptr), code),
    ensures
        keeps_the_rest(*old(env), *final(env)),
        ({
            let before = old(env).state.webgpu@;
            let after = final(env).state.webgpu@;
            let at = crate::memory::offset_of(out_future_ptr) as int;
            if !old(env).capabilities.webgpu_spike.allow {
                code == -2 && after == before && final(memory)@ == old(memory)@
            } else if before.issued == u32::MAX {
                code == -7 && after == before && final(memory)@ == old(memory)@
            } else {
                &&& has_one_more(before, WaitableKind::Future, after)
                &&& if at + 4 <= old(memory)@.len() {
                    &&& code == 0
                    &&& crate::memory::differs_by_integer(
                        old(memory)@,
                        final(memory)@,
                        at,
                        (before.issued + 1) as u32,
                    )
                } else {
                    code == -3 && final(memory)@ == old(memory)@
                }
            }
        }),
{
    let before = old(env).state.webgpu@;
    let after = final(env).state.webgpu@;
    crate::memory::law_a_written_integer_is_the_difference(
        old(memory)@,
        crate::memory::offset_of(out_future_ptr),
        (before.issued + 1) as u32,
    );
    if old(env).capabilities.webgpu_spike.allow && before.issued < u32::MAX {
        lemma_has_one_more(before, WaitableKind::Future, after);
    }
}

/// A set is made exactly where the namespace is allowed and a handle is left:
/// without members, under that handle, which the guest is given if there is room
/// for it.
pub proof fn law_a_new_set_is_empty<B: NnBackend>(
    env: &mut WasiEnv<B>,
    memory: &mut GuestMemory,
    out_set_ptr: i32,
    code: i32,
)
    requires
        call_ensures(super::waitable_set_new::waitable_set_new::<B>, (env, memory, out_set_ptr), code),
    ensures
        keeps_the_rest(*old(env), *final(env)),
        ({
            let before = old(env).state.webgpu@;
            let after = final(env).state.webgpu@;
            let at = crate::memory::offset_of(out_set_ptr) as int;
            if !old(env).capabilities.webgpu_spike.allow {
                code == -2 && after == before && final(memory)@ == old(memory)@
            } else if before.issued == u32::MAX {
                code == -7 && after == before && final(memory)@ == old(memory)@
            } else {
                &&& after.issued == before.issued + 1
                &&& after.waitables == before.waitables
                &&& after.sets == before.sets.insert((before.issued + 1) as u32, Seq::empty())
                &&& if at + 4 <= old(memory)@.len() {
                    &&& code == 0
                    &&& crate::memory::differs_by_integer(
                        old(memory)@,
                        final(memory)@,
                        at,
                        (before.issued + 1) as u32,
                    )
                } else {
                    code == -3 && final(memory)@ == old(memory)@
                }
            }
        }),
{
    crate::memory::law_a_written_integer_is_the_difference(
        old(memory)@,
        crate::memory::offset_of(out_set_ptr),
        (old(env).state.webgpu@.issued + 1) as u32,
    );
}

/// A future is read exactly where the namespace is allowed and the handle names a
/// future that has resolved: the guest is given the value it resolved with, if
/// there is room for it. A pending future answers `Blocked`, and nothing is
/// written.
pub proof fn law_a_read_hands_out_the_value<B: NnBackend>(
    env: &WasiEnv<B>,
    memory: &mut GuestMemory,
    future: i32,
    out_value_ptr: i32,
    code: i32,
)
    requires
        call_ensures(super::future_read::future_read::<B>, (env, memory, future, out_value_ptr), code),
    ensures
        ({
            let waitables = env.state.webgpu@.waitables;
            let handle = future as u32;
            let at = crate::memory::offset_of(out_value_ptr) as int;
            if !env.capabilities.webgpu_spike.allow {
                code == -2 && final(memory)@ == old(memory)@
            } else if future < 0 || !waitables.contains_key(handle) || waitables[handle].kind
                != WaitableKind::Future {
                code == -4 && final(memory)@ == old(memory)@
            } else if waitables[handle].slot is Pending {
                code == -8 && final(memory)@ == old(memory)@
            } else if at + 4 <= old(memory)@.len() {
                &&& code == 0
                &&& crate::memory::differs_by_integer(
                    old(memory)@,
                    final(memory)@,
                    at,
                    waitables[handle].slot->Resolved_0,
                )
            } else {
                code == -3 && final(memory)@ == old(memory)@
            }
        }),
{
    crate::memory::law_a_written_integer_is_the_difference(
        old(memory)@,
        crate::memory::offset_of(out_value_ptr),
        env.state.webgpu@.waitables[future as u32].slot->Resolved_0,
    );
}

/// Filling in a future can be asked for exactly where the namespace is allowed and
/// the handle names a future, resolved or not: the work to be done resolves it with
/// the value after the delay.
pub proof fn law_asked_work_resolves_the_future<B: NnBackend>(
    env: &WasiEnv<B>,
    future: i32,
    value: i32,
    delay_ms: i32,
    result: Result<BackgroundTask, i32>,
    spawned: bool,
    code: i32,
)
    requires
        call_ensures(
            super::future_resolve_after::future_resolve_after::<B>,
            (env, future, value, delay_ms),
            result,
        ),
        call_ensures(super::future_resolve_after::future_resolve_scheduled, (spawned,), code),
    ensures
        ({
            let waitables = env.state.webgpu@.waitables;
            if !env.capabilities.webgpu_spike.allow {
                result is Err && result->Err_0 == -2
            } else if future < 0 || !waitables.contains_key(future as u32) || waitables[future as u32].kind
                != WaitableKind::Future {
                result is Err && result->Err_0 == -4
            } else {
                &&& result is Ok
                &&& result->Ok_0.handle == future
                &&& result->Ok_0.payload == value || result->Ok_0.payload == value + 0x1_0000_0000
                &&& result->Ok_0.delay_ms == (if delay_ms > 0 {
                    delay_ms as int
                } else {
                    50
                })
            }
        }),
        code == (if spawned {
            0int
        } else {
            -1
        }),
{
}

/// What releasing the waitable `raw` as a `kind` makes of the tables, and the code
/// it answers.
pub open spec fn releases(
    allow: bool,
    before: WebgpuView,
    raw: i32,
    kind: WaitableKind,
    after: WebgpuView,
    code: i32,
) -> bool {
    if !allow {
        code == -2 && after == before
    } else if raw < 0 || !before.waitables.contains_key(raw as u32) || before.waitables[raw as u32].kind
        != kind {
        code == -4 && after == before
    } else {
        &&& code == 0
        &&& after.issued == before.issued
        &&& after.sets == before.sets
        &&& after.waitables == before.waitables.remove(raw as u32)
    }
}

/// A subtask or a future is released exactly where the namespace is allowed and the
/// handle names a waitable of that kind, resolved or not. Nothing else changes.
pub proof fn law_a_release_takes_one_waitable<B: NnBackend>(
    env: &mut WasiEnv<B>,
    other: &mut WasiEnv<B>,
    raw: i32,
    code: i32,
    other_code: i32,
)
    requires
        call_ensures(super::subtask_drop::subtask_drop::<B>, (env, raw), code),
        call_ensures(super::future_drop::future_drop::<B>, (other, raw), other_code),
    ensures
        keeps_the_rest(*old(env), *final(env)),
        releases(
            old(env).capabilities.webgpu_spike.allow,
            old(env).state.webgpu@,
            raw,
            WaitableKind::Subtask,
            final(env).state.webgpu@,
            code,
        ),
        keeps_the_rest(*old(other), *final(other)),
        releases(
            old(other).capabilities.webgpu_spike.allow,
            old(other).state.webgpu@,
            raw,
            WaitableKind::Future,
            final(other).state.webgpu@,
            other_code,
        ),
{
}

/// A waitable joins a set exactly where the namespace is allowed, both handles name
/// what they should and the set has room: it becomes the last member, and nothing
/// else changes.
pub proof fn law_a_join_appends_the_waitable<B: NnBackend>(
    env: &mut WasiEnv<B>,
    waitable: i32,
    set: i32,
    code: i32,
)
    requires
        call_ensures(super::waitable_join::waitable_join::<B>, (env, waitable, set), code),
    ensures
        keeps_the_rest(*old(env), *final(env)),
        ({
            let before = old(env).state.webgpu@;
            let after = final(env).state.webgpu@;
            if !old(env).capabilities.webgpu_spike.allow {
                code == -2 && after == before
            } else if waitable < 0 || set < 0 || !before.waitables.contains_key(waitable as u32)
                || !before.sets.contains_key(set as u32) {
                code == -4 && after == before
            } else if before.sets[set as u32].len() >= 8 {
                code == -5 && after == before
            } else {
                let members = before.sets[set as u32];
                let more = after.sets[set as u32];
                &&& code == 0
                &&& after.issued == before.issued
                &&& after.waitables == before.waitables
                &&& after.sets.dom() == before.sets.dom()
                &&& more.len() == members.len() + 1
                &&& more.last() == waitable
                &&& forall|i: int| 0 <= i < members.len() ==> #[trigger] more[i] == members[i]
                &&& forall|s: u32|
                    s != set && before.sets.contains_key(s) ==> #[trigger] after.sets[s] == before.sets[s]
            }
        }),
{
    let before = old(env).state.webgpu@;
    let after = final(env).state.webgpu@;
    if code == 0 {
        assert(after.sets.dom() =~= before.sets.dom());
    }
}

/// A set exists and all its members in front of place `i` are pending.
pub open spec fn pending_up_to(tables: WebgpuView, set: u32, i: int) -> bool {
    &&& tables.sets.contains_key(set)
    &&& 0 <= i <= tables.sets[set].len()
    &&& forall|j: int|
        0 <= j < i ==> tables.waitables.contains_key(#[trigger] tables.sets[set][j])
            && tables.waitables[tables.sets[set][j]].slot is Pending
}

/// `after` is `mem` with the event of `handle` and `payload` at `at`, and every
/// other byte as it was.
pub open spec fn differs_by_event(mem: Seq<u8>, after: Seq<u8>, at: int, handle: u32, payload: u32) -> bool {
    &&& 0 <= at
    &&& at + 8 <= mem.len()
    &&& after.len() == mem.len()
    &&& crate::memory::u32_at(after, at) == handle
    &&& crate::memory::u32_at(after, at + 4) == payload
    &&& forall|k: int| 0 <= k < at || at + 8 <= k < mem.len() ==> #[trigger] after[k] == mem[k]
}

/// The members other than `member`, in their order.
pub open spec fn all_but(members: Seq<u32>, member: u32) -> Seq<u32> {
    members.filter(|m: u32| m != member)
}

/// `after` are the tables once `member` was taken out of every set: the other
/// members of every set are left in their order, and nothing else changes.
pub open spec fn leaves_every_set(before: WebgpuView, member: u32, after: WebgpuView) -> bool {
    &&& after.issued == before.issued
    &&& after.waitables == before.waitables
    &&& after.sets.dom() == before.sets.dom()
    &&& forall|s: u32|
        before.sets.contains_key(s) ==> #[trigger] after.sets[s] == all_but(before.sets[s], member)
}

/// What the first member that is not pending decides for a look at a set.
proof fn lemma_decided(tables: WebgpuView, set: u32, answer: Result<WaitOutcomeView, WebgpuErrno>, i: int)
    requires
        tables.poll(set, answer),
        pending_up_to(tables, set, i),
        i < tables.sets[set].len(),
    ensures
        ({
            let member = tables.sets[set][i];
            &&& !tables.waitables.contains_key(member) ==> answer == Err::<WaitOutcomeView, WebgpuErrno>(
                WebgpuErrno::BadHandle,
            )
            &&& tables.waitables.contains_key(member) && tables.waitables[member].slot is Resolved
                ==> answer == Ok::<WaitOutcomeView, WebgpuErrno>(
                WaitOutcomeView::Ready(member, tables.waitables[member].slot->Resolved_0),
            )
        }),
{
    let members = tables.sets[set];
    assert forall|j: int| 0 <= j < i implies tables.pending(#[trigger] members[j]) by {}
    if !tables.pending(members[i]) {
        assert(tables.first_settled(members, i));
        assert forall|k: int| #[trigger] tables.first_settled(members, k) implies k == i by {
            if k < i {
                assert(tables.pending(members[k]));
            } else if i < k {
                assert(tables.pending(members[i]));
            }
        }
    }
}

/// Taking a waitable out of a list leaves the other members in their order.
proof fn lemma_without_is_a_filter(members: Seq<u32>, waitable: u32)
    ensures
        crate::state::webgpu::without(members, waitable) == all_but(members, waitable),
    decreases members.len(),
{
    reveal(Seq::filter);
    if members.len() > 0 {
        lemma_without_is_a_filter(members.drop_last(), waitable);
    }
}

/// What a step of a wait does with the answer of a look: only a member that is
/// ready changes anything.
proof fn lemma_answered(
    before: WebgpuView,
    mem: Seq<u8>,
    set: u32,
    answer: Result<WaitOutcomeView, WebgpuErrno>,
    out_event_ptr: i32,
    handle: u32,
    payload: u32,
)
    requires
        answer == Ok::<WaitOutcomeView, WebgpuErrno>(WaitOutcomeView::Ready(handle, payload)),
        before.sets.contains_key(set),
        before.waitables.contains_key(handle),
    ensures
        ({
            let (after, mem_after, step) = super::waitable_set_wait::wait_answered(
                before,
                mem,
                set,
                answer,
                out_event_ptr,
            );
            let at = crate::memory::offset_of(out_event_ptr) as int;
            if at + 8 <= mem.len() {
                &&& step == super::waitable_set_wait::WaitStepView::Done(0)
                &&& differs_by_event(mem, mem_after, at, handle, payload)
                &&& leaves_every_set(before, handle, after)
            } else {
                &&& step == super::waitable_set_wait::WaitStepView::Done(-3)
                &&& mem_after == mem
                &&& after == before
            }
        }),
{
    let at = crate::memory::offset_of(out_event_ptr);
    let (after, mem_after, step) = super::waitable_set_wait::wait_answered(
        before,
        mem,
        set,
        answer,
        out_event_ptr,
    );
    let event = super::waitable_set_wait::event_bytes(handle, payload);
    let first = crate::memory::u32_bytes(handle);
    let second = crate::memory::u32_bytes(payload);
    assert(first.len() == 4 && second.len() == 4);
    if at + 8 <= mem.len() {
        assert forall|k: int| 0 <= k < 4 implies mem_after[at + k] == first[k] && mem_after[at + 4 + k]
            == second[k] by {
            assert(event[k] == first[k]);
            assert(event[4 + k] == second[k]);
        }
        assert(mem_after[at + 0] == first[0] && mem_after[at + 4 + 0] == second[0]);
        crate::memory::lemma_u32_of_bytes(mem_after, at as int, handle);
        crate::memory::lemma_u32_of_bytes(mem_after, at + 4, payload);
        assert(after.sets.dom() =~= before.sets.dom());
        assert forall|s: u32| before.sets.contains_key(s) implies #[trigger] after.sets[s]
            == all_but(before.sets[s], handle) by {
            lemma_without_is_a_filter(before.sets[s], handle);
        }
    }
}

/// A wait on a set tells the guest of the first member that is not pending, if that
/// one has resolved, whatever the members behind it are: its handle and its payload
/// are written, and it leaves every set. Where the event cannot be written nothing
/// changes, so that it is told of again.
pub proof fn law_a_wait_tells_of_the_first_resolved_member<B: NnBackend>(
    env: &mut WasiEnv<B>,
    memory: &mut GuestMemory,
    set: i32,
    out_event_ptr: i32,
    step: WaitStep,
    i: int,
)
    requires
        call_ensures(
            super::waitable_set_wait::waitable_set_wait::<B>,
            (env, memory, set, out_event_ptr),
            step,
        ),
        old(env).capabilities.webgpu_spike.allow,
        set >= 0,
        pending_up_to(old(env).state.webgpu@, set as u32, i),
        i < old(env).state.webgpu@.sets[set as u32].len(),
        old(env).state.webgpu@.waitables.contains_key(old(env).state.webgpu@.sets[set as u32][i]),
        old(env).state.webgpu@.waitables[old(env).state.webgpu@.sets[set as u32][i]].slot is Resolved,
    ensures
        keeps_the_rest(*old(env), *final(env)),
        ({
            let before = old(env).state.webgpu@;
            let after = final(env).state.webgpu@;
            let member = before.sets[set as u32][i];
            let at = crate::memory::offset_of(out_event_ptr) as int;
            if at + 8 <= old(memory)@.len() {
                &&& ends_with(step, 0)
                &&& differs_by_event(
                    old(memory)@,
                    final(memory)@,
                    at,
                    member,
                    before.waitables[member].slot->Resolved_0,
                )
                &&& leaves_every_set(before, member, after)
            } else {
                &&& ends_with(step, -3)
                &&& final(memory)@ == old(memory)@
                &&& after == before
            }
        }),
{
    let before = old(env).state.webgpu@;
    let member = before.sets[set as u32][i];
    let payload = before.waitables[member].slot->Resolved_0;
    let answer = choose|answer: Result<WaitOutcomeView, WebgpuErrno>| #[trigger]
        before.poll(set as u32, answer) && (final(env).state.webgpu@, final(memory)@, step@)
            == super::waitable_set_wait::wait_answered(
            before,
            old(memory)@,
            set as u32,
            answer,
            out_event_ptr,
        );
    lemma_decided(before, set as u32, answer, i);
    lemma_answered(before, old(memory)@, set as u32, answer, out_event_ptr, member, payload);
}

/// A wait that tells of nothing changes nothing. Something that is no handle and a
/// set that was never made are a `BadHandle`, a set without members is `SetEmpty`,
/// a released member in front of every resolved one is a `BadHandle`, and while all
/// members are pending the wait hands out what each of them is to be awaited on.
pub proof fn law_a_wait_without_an_event_changes_nothing<B: NnBackend>(
    env: &mut WasiEnv<B>,
    memory: &mut GuestMemory,
    set: i32,
    out_event_ptr: i32,
    step: WaitStep,
    i: int,
)
    requires
        call_ensures(
            super::waitable_set_wait::waitable_set_wait::<B>,
            (env, memory, set, out_event_ptr),
            step,
        ),
    ensures
        keeps_the_rest(*old(env), *final(env)),
        !ends_with(step, 0) ==> {
            &&& final(env).state.webgpu@ == old(env).state.webgpu@
            &&& final(memory)@ == old(memory)@
        },
        ({
            let tables = old(env).state.webgpu@;
            let handle = set as u32;
            if set < 0 {
                ends_with(step, -4)
            } else if !old(env).capabilities.webgpu_spike.allow {
                ends_with(step, -2)
            } else if !tables.sets.contains_key(handle) {
                ends_with(step, -4)
            } else if tables.sets[handle].len() == 0 {
                ends_with(step, -6)
            } else {
                &&& pending_up_to(tables, handle, i) && i < tables.sets[handle].len()
                    && !tables.waitables.contains_key(tables.sets[handle][i]) ==> ends_with(step, -4)
                &&& pending_up_to(tables, handle, tables.sets[handle].len() as int) <==> step is Suspend
                &&& step is Suspend ==> {
                    let waits = step->Suspend_0@;
                    &&& waits.len() == tables.sets[handle].len()
                    &&& forall|j: int|
                        0 <= j < waits.len() ==> {
                            &&& (#[trigger] waits[j]).0 == tables.sets[handle][j]
                            &&& tables.waitables[waits[j].0].slot == SlotState::Pending(waits[j].1)
                        }
                }
            }
        }),
{
    let tables = old(env).state.webgpu@;
    let handle = set as u32;
    if set >= 0 && old(env).capabilities.webgpu_spike.allow {
        let members = tables.sets[handle];
        let answer = choose|answer: Result<WaitOutcomeView, WebgpuErrno>| #[trigger]
            tables.poll(handle, answer) && (final(env).state.webgpu@, final(memory)@, step@)
                == super::waitable_set_wait::wait_answered(
                tables,
                old(memory)@,
                handle,
                answer,
                out_event_ptr,
            );
        if tables.sets.contains_key(handle) && members.len() > 0 {
            if pending_up_to(tables, handle, i) && i < members.len() && !tables.waitables.contains_key(
                members[i],
            ) {
                lemma_decided(tables, handle, answer, i);
            }
            if pending_up_to(tables, handle, members.len() as int) {
                assert forall|k: int| !#[trigger] tables.first_settled(members, k) by {
                    if 0 <= k < members.len() {
                        assert(tables.waitables.contains_key(members[k]));
                    }
                }
            }
            if step is Suspend {
                let waits = step->Suspend_0@;
                assert forall|j: int| 0 <= j < members.len() implies {
                    &&& tables.waitables.contains_key(#[trigger] members[j])
                    &&& tables.waitables[members[j]].slot is Pending
                    &&& waits[j].0 == members[j]
                    &&& tables.waitables[members[j]].slot == SlotState::Pending(waits[j].1)
                } by {
                    assert(tables.pending(members[j]));
                }
                assert forall|j: int| 0 <= j < waits.len() implies {
                    &&& (#[trigger] waits[j]).0 == members[j]
                    &&& tables.waitables[waits[j].0].slot == SlotState::Pending(waits[j].1)
                } by {
                    assert(tables.waitables.contains_key(members[j]));
                }
            }
        }
    }
}

/// Any way to tell the others from `member` gives the same list.
proof fn lemma_all_but(members: Seq<u32>, member: u32, keep: spec_fn(u32) -> bool)
    requires
        forall|m: u32| #[trigger] keep(m) == (m != member),
    ensures
        all_but(members, member) == members.filter(keep),
    decreases members.len(),
{
    reveal(Seq::filter);
    if members.len() > 0 {
        lemma_all_but(members.drop_last(), member, keep);
    }
}

/// Events come in the order of joining: after a wait told of one resolved member,
/// the next wait on the set tells of the resolved member that follows it, past
/// members that are pending.
pub proof fn law_events_come_in_the_order_of_joining<B: NnBackend>(
    env: &mut WasiEnv<B>,
    memory: &mut GuestMemory,
    step: WaitStep,
    env_again: &mut WasiEnv<B>,
    memory_again: &mut GuestMemory,
    step_again: WaitStep,
    set: i32,
    out_event_ptr: i32,
    i: int,
    j: int,
)
    requires
        call_ensures(
            super::waitable_set_wait::waitable_set_wait::<B>,
            (env, memory, set, out_event_ptr),
            step,
        ),
        call_ensures(
            super::waitable_set_wait::waitable_set_wait::<B>,
            (env_again, memory_again, set, out_event_ptr),
            step_again,
        ),
        *old(env_again) == *final(env),
        old(memory_again)@ == final(memory)@,
        old(env).capabilities.webgpu_spike.allow,
        set >= 0,
        crate::memory::offset_of(out_event_ptr) + 8 <= old(memory)@.len(),
        pending_up_to(old(env).state.webgpu@, set as u32, i),
        i < j < old(env).state.webgpu@.sets[set as u32].len(),
        ({
            let tables = old(env).state.webgpu@;
            let members = tables.sets[set as u32];
            &&& tables.waitables.contains_key(members[i]) && tables.waitables[members[i]].slot is Resolved
            &&& tables.waitables.contains_key(members[j]) && tables.waitables[members[j]].slot is Resolved
            &&& members[j] != members[i]
            &&& forall|k: int|
                i < k < j && members[k] != members[i] ==> tables.waitables.contains_key(
                    #[trigger] members[k],
                ) && tables.waitables[members[k]].slot is Pending
        }),
    ensures
        ({
            let tables = old(env).state.webgpu@;
            let members = tables.sets[set as u32];
            let at = crate::memory::offset_of(out_event_ptr) as int;
            &&& ends_with(step, 0)
            &&& crate::memory::u32_at(final(memory)@, at) == members[i]
            &&& crate::memory::u32_at(final(memory)@, at + 4) == tables.waitables[members[i]].slot->Resolved_0
            &&& ends_with(step_again, 0)
            &&& crate::memory::u32_at(final(memory_again)@, at) == members[j]
            &&& crate::memory::u32_at(final(memory_again)@, at + 4)
                == tables.waitables[members[j]].slot->Resolved_0
        }),
{
    let tables = old(env).state.webgpu@;
    let members = tables.sets[set as u32];
    law_a_wait_tells_of_the_first_resolved_member(env, memory, set, out_event_ptr, step, i);
    let after = final(env).state.webgpu@;
    let told = members[i];
    let keep = |m: u32| m != told;
    let front = members.take(j);
    let rest = members.skip(j + 1);
    let place = front.filter(keep).len() as int;
    assert(after.sets[set as u32] == all_but(members, told));
    lemma_all_but(members, told, keep);
    assert(members == front + (seq![members[j]] + rest));
    Seq::filter_distributes_over_add(front, seq![members[j]] + rest, keep);
    Seq::filter_distributes_over_add(seq![members[j]], rest, keep);
    assert(seq![members[j]].filter(keep) == seq![members[j]]) by {
        reveal(Seq::filter);
        assert(seq![members[j]].drop_last() == Seq::<u32>::empty());
    }
    assert(after.sets[set as u32][place] == members[j]);
    assert forall|k: int| 0 <= k < place implies tables.waitables.contains_key(
        #[trigger] after.sets[set as u32][k],
    ) && tables.waitables[after.sets[set as u32][k]].slot is Pending by {
        let member = front.filter(keep)[k];
        assert(after.sets[set as u32][k] == member);
        assert(front.filter(keep).contains(member));
        front.lemma_filter_contains_rev(keep, member);
        front.lemma_filter_pred(keep, k);
        assert(keep(member));
        let origin = choose|origin: int| 0 <= origin < front.len() && front[origin] == member;
        assert(members[origin] == member);
    }
    assert(pending_up_to(after, set as u32, place));
    law_a_wait_tells_of_the_first_resolved_member(
        env_again,
        memory_again,
        set,
        out_event_ptr,
        step_again,
        place,
    );
}

/// Where the engine cannot run async code, the imports that suspend say so. The
/// first import of the namespace hands out its adapter, if there is room for it.
pub proof fn law_the_first_import_hands_out_an_adapter(
    memory: &mut GuestMemory,
    out_ptr: i32,
    code: i32,
    unsupported: i32,
    set: i32,
    wait_unsupported: i32,
)
    requires
        call_ensures(crate::syscalls::wasi_webgpu_spike::request_adapter_spike, (memory, out_ptr), code),
        call_ensures(
            crate::syscalls::wasi_webgpu_spike::request_adapter_spike_not_supported,
            (out_ptr,),
            unsupported,
        ),
        call_ensures(
            super::waitable_set_wait::waitable_set_wait_not_supported,
            (set, out_ptr),
            wait_unsupported,
        ),
    ensures
        ({
            let at = crate::memory::offset_of(out_ptr) as int;
            if at + 4 <= old(memory)@.len() {
                code == 0 && crate::memory::differs_by_integer(old(memory)@, final(memory)@, at, 1)
            } else {
                code == -1 && final(memory)@ == old(memory)@
            }
        }),
        unsupported == -2,
        wait_unsupported == -1,
{
    crate::memory::law_a_written_integer_is_the_difference(
        old(memory)@,
        crate::memory::offset_of(out_ptr),
        1,
    );
}

/// A value is handed to the guest exactly where there is room for it.
pub proof fn law_a_value_is_handed_out(
    memory: &mut GuestMemory,
    out_ptr: i32,
    value: u32,
    result: Result<(), WebgpuErrno>,
)
    requires
        call_ensures(super::abi::deliver, (memory, out_ptr, value), result),
    ensures
        ({
            let at = crate::memory::offset_of(out_ptr) as int;
            if at + 4 <= old(memory)@.len() {
                result is Ok && crate::memory::differs_by_integer(old(memory)@, final(memory)@, at, value)
            } else {
                &&& result == Err::<(), WebgpuErrno>(WebgpuErrno::MissingMemory)
                &&& final(memory)@ == old(memory)@
            }
        }),
{
    crate::memory::law_a_written_integer_is_the_difference(
        old(memory)@,
        crate::memory::offset_of(out_ptr),
        value,
    );
}

/// How many waitables a set holds, and how long a simulated operation takes.
pub proof fn law_the_limits_of_the_namespace()
    ensures
        crate::state::webgpu::MAX_WAITABLES_PER_SET == 8,
        super::background::DEFAULT_SIMULATED_DELAY_MS == 50,
        crate::syscalls::wasi_webgpu_spike::SIMULATED_DELAY_MS == 50,
        super::request_adapter_start::FAKE_ADAPTER_ID == 1,
        crate::syscalls::wasi_webgpu_spike::FAKE_ADAPTER_ID == 1,
{
}

} // verus!
