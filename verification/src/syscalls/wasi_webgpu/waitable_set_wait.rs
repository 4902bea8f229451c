//! `waitable_set_wait`: waiting until a member of a waitable set has resolved.

use std::sync::Arc;

use tokio::sync::Notify;
use vstd::prelude::*;

use super::abi::guest_handle;
use crate::backend::NnBackend;
use crate::env::WasiEnv;
use crate::memory::{guest_offset, push_u32, GuestMemory};
use crate::state::webgpu::{WaitOutcome, WaitOutcomeView, WebgpuErrno, WebgpuView};

verus! {

/// What a step of a wait comes to.
#[derive(Debug)]
pub enum WaitStep {
    /// The wait is over, and the guest sees this code.
    Done(i32),
    /// Every member is pending: one of these has to be awaited before the next
    /// step. Never empty.
    Suspend(Vec<(u32, Arc<Notify>)>),
}

/// What a [`WaitStep`] holds.
pub enum WaitStepView {
    Done(int),
    Suspend(Seq<(u32, Arc<Notify>)>),
}

impl View for WaitStep {
    type V = WaitStepView;

    open spec fn view(&self) -> WaitStepView {
        match self {
            WaitStep::Done(code) => WaitStepView::Done(*code as int),
            WaitStep::Suspend(waits) => WaitStepView::Suspend(waits@),
        }
    }
}

/// The event that tells a guest of a resolved waitable: its handle, then its
/// payload.
pub open spec fn event_bytes(handle: u32, payload: u32) -> Seq<u8> {
    crate::memory::u32_bytes(handle) + crate::memory::u32_bytes(payload)
}

/// The tables and guest memory after a step of a wait on `set` that found
/// `answer`, and what the step comes to. The waitable whose event was written
/// leaves the set, and every other; where the event cannot be written, it stays.
pub open spec fn wait_answered(
    before: WebgpuView,
    mem: Seq<u8>,
    set: u32,
    answer: Result<WaitOutcomeView, WebgpuErrno>,
    out_event_ptr: i32,
) -> (WebgpuView, Seq<u8>, WaitStepView) {
    match answer {
        Err(errno) => (before, mem, WaitStepView::Done(errno.code())),
        Ok(WaitOutcomeView::Pending(waits)) => (before, mem, WaitStepView::Suspend(waits)),
        Ok(WaitOutcomeView::Ready(handle, payload)) => match crate::memory::bytes_written(
            mem,
            crate::memory::offset_of(out_event_ptr),
            event_bytes(handle, payload),
        ) {
            None => (before, mem, WaitStepView::Done(WebgpuErrno::MissingMemory.code())),
            Some(written) => (
                before.remove_from_set(set, handle),
                written,
                WaitStepView::Done(WebgpuErrno::Success.code()),
            ),
        },
    }
}

/// A step of a call of `waitable_set_wait` may take the tables from `before` to
/// `after` and guest memory from `mem` to `mem_after`, and come to `step`.
pub open spec fn wait_stepped(
    allow: bool,
    before: WebgpuView,
    mem: Seq<u8>,
    set: i32,
    out_event_ptr: i32,
    after: WebgpuView,
    mem_after: Seq<u8>,
    step: WaitStepView,
) -> bool {
    match super::abi::handle_of(set) {
        Err(errno) => (after, mem_after, step) == (before, mem, WaitStepView::Done(errno.code())),
        Ok(set) => if !allow {
            (after, mem_after, step) == (
                before,
                mem,
                WaitStepView::Done(WebgpuErrno::CapabilityDenied.code()),
            )
        } else {
            exists|answer: Result<WaitOutcomeView, WebgpuErrno>| #[trigger]
                before.poll(set, answer) && (after, mem_after, step) == wait_answered(
                    before,
                    mem,
                    set,
                    answer,
                    out_event_ptr,
                )
        },
    }
}

/// Writes the event of a resolved waitable to `out_event_ptr`.
fn write_event(memory: &mut GuestMemory, out_event_ptr: i32, handle: u32, payload: u32) -> (written: bool)
    ensures
        match crate::memory::bytes_written(
            old(memory)@,
            crate::memory::offset_of(out_event_ptr),
            event_bytes(handle, payload),
        ) {
            Some(after) => written && final(memory)@ == after,
            None => !written && final(memory)@ == old(memory)@,
        },
{
    let mut event: Vec<u8> = Vec::with_capacity(8);
    push_u32(&mut event, handle);
    push_u32(&mut event, payload);
    assert(event@ == event_bytes(handle, payload));
    memory.write_bytes(guest_offset(out_event_ptr), event.as_slice()).is_ok()
}

/// `waitable_set_wait()`: one step of a wait on the waitable set `set`. Once a
/// member has resolved, its event is written to `out_event_ptr` and it leaves
/// the set. While every member is pending the caller awaits one of them and
/// takes the next step; nothing is held in between.
pub fn waitable_set_wait<B: NnBackend>(
    env: &mut WasiEnv<B>,
    memory: &mut GuestMemory,
    set: i32,
    out_event_ptr: i32,
) -> (step: WaitStep)
    ensures
        old(env).changes_only_webgpu(*final(env)),
        wait_stepped(
            old(env).capabilities.webgpu_spike.allow,
            old(env).state.webgpu@,
            old(memory)@,
            set,
            out_event_ptr,
            final(env).state.webgpu@,
            final(memory)@,
            step@,
        ),
        old(env).wf() ==> final(env).wf(),
{
    let set: u32 = match guest_handle(set) {
        Ok(set) => set,
        Err(errno) => return WaitStep::Done(errno.to_i32()),
    };
    if !env.capabilities.webgpu_spike.allow {
        return WaitStep::Done(WebgpuErrno::CapabilityDenied.to_i32());
    }
    match env.state.webgpu.poll_wait(set) {
        Err(errno) => WaitStep::Done(errno.to_i32()),
        Ok(WaitOutcome::Pending(waits)) => WaitStep::Suspend(waits),
        Ok(WaitOutcome::Ready(handle, payload)) => {
            if !write_event(memory, out_event_ptr, handle, payload) {
                return WaitStep::Done(WebgpuErrno::MissingMemory.to_i32());
            }
            env.state.webgpu.remove_from_set(set, handle);
            WaitStep::Done(WebgpuErrno::Success.to_i32())
        },
    }
}

/// Stands in for [`waitable_set_wait`] where the engine cannot run async code.
pub fn waitable_set_wait_not_supported(_set: i32, _out_event_ptr: i32) -> (code: i32)
    ensures
        code == WebgpuErrno::Unsupported.code(),
{
    WebgpuErrno::Unsupported.to_i32()
}

} // verus!
