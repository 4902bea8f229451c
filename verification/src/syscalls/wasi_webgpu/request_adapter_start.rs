//! `request_adapter_start`: starting a request for an adapter.

use vstd::prelude::*;

use super::abi::{deliver, status_of};
use super::background::{guest_delay, BackgroundTask};
use crate::backend::NnBackend;
use crate::env::WasiEnv;
use crate::memory::GuestMemory;
use crate::state::webgpu::{WaitableKind, WebgpuErrno, WebgpuView};

verus! {

/// The payload of a resolved request. There is no adapter behind it.
pub const FAKE_ADAPTER_ID: u32 = 1;

/// The first half of a call of `request_adapter_start` may take the tables from
/// `before` to `after` and come out as `result`.
pub open spec fn adapter_requested(
    allow: bool,
    before: WebgpuView,
    delay_ms: i32,
    after: WebgpuView,
    result: Result<BackgroundTask, WebgpuErrno>,
) -> bool {
    let handle = (before.issued + 1) as u32;
    if !allow {
        after == before && result == Err::<BackgroundTask, WebgpuErrno>(WebgpuErrno::CapabilityDenied)
    } else if before.issued == u32::MAX {
        after == before && result == Err::<BackgroundTask, WebgpuErrno>(WebgpuErrno::TooManyHandles)
    } else {
        &&& before.registers(handle, WaitableKind::Subtask, after)
        &&& result == Ok::<BackgroundTask, WebgpuErrno>(
            BackgroundTask {
                handle,
                payload: FAKE_ADAPTER_ID,
                delay_ms: super::background::delay_of(delay_ms),
            },
        )
    }
}

/// The tables and guest memory after the second half of a call of
/// `request_adapter_start`, and what the call comes out as. A request whose work
/// could not be handed to the task pool is released again.
pub open spec fn adapter_request_spawned(
    before: WebgpuView,
    mem: Seq<u8>,
    handle: u32,
    spawned: bool,
    out_subtask_ptr: i32,
) -> (WebgpuView, Seq<u8>, Result<(), WebgpuErrno>) {
    if spawned {
        let (mem_after, result) = super::abi::delivered(mem, out_subtask_ptr, handle);
        (before, mem_after, result)
    } else {
        (before.drop_waitable(handle, WaitableKind::Subtask), mem, Err(WebgpuErrno::Unsupported))
    }
}

/// Registers a subtask and gathers the work that resolves it.
pub fn request_adapter_start_inner<B: NnBackend>(env: &mut WasiEnv<B>, delay_ms: i32) -> (result: Result<
    BackgroundTask,
    WebgpuErrno,
>)
    ensures
        old(env).changes_only_webgpu(*final(env)),
        adapter_requested(
            old(env).capabilities.webgpu_spike.allow,
            old(env).state.webgpu@,
            delay_ms,
            final(env).state.webgpu@,
            result,
        ),
        old(env).wf() ==> final(env).wf(),
{
    if !env.capabilities.webgpu_spike.allow {
        return Err(WebgpuErrno::CapabilityDenied);
    }
    match env.state.webgpu.insert_pending(WaitableKind::Subtask) {
        Ok(handle) => Ok(
            BackgroundTask { handle, payload: FAKE_ADAPTER_ID, delay_ms: guest_delay(delay_ms) },
        ),
        Err(errno) => Err(errno),
    }
}

/// `request_adapter_start()`: starts a request for an adapter without blocking.
/// A subtask is registered, to be resolved once `delay_ms` milliseconds (or the
/// default delay, if that is not positive) have passed. Answers with the work to
/// run in the background, which [`request_adapter_spawned`] goes on from, or
/// with the code that the guest sees where there is none.
pub fn request_adapter_start<B: NnBackend>(env: &mut WasiEnv<B>, delay_ms: i32) -> (result: Result<
    BackgroundTask,
    i32,
>)
    ensures
        old(env).changes_only_webgpu(*final(env)),
        match result {
            Ok(task) => adapter_requested(
                old(env).capabilities.webgpu_spike.allow,
                old(env).state.webgpu@,
                delay_ms,
                final(env).state.webgpu@,
                Ok(task),
            ),
            Err(code) => exists|errno: WebgpuErrno|
                code == errno.code() && #[trigger] adapter_requested(
                    old(env).capabilities.webgpu_spike.allow,
                    old(env).state.webgpu@,
                    delay_ms,
                    final(env).state.webgpu@,
                    Err(errno),
                ),
        },
        old(env).wf() ==> final(env).wf(),
{
    match request_adapter_start_inner(env, delay_ms) {
        Ok(task) => Ok(task),
        Err(errno) => Err(errno.to_i32()),
    }
}

/// Ends a call of `request_adapter_start` once its work was handed to the task
/// pool, or was refused there: writes the handle of the subtask to
/// `out_subtask_ptr`.
pub fn request_adapter_spawned<B: NnBackend>(
    env: &mut WasiEnv<B>,
    memory: &mut GuestMemory,
    task: BackgroundTask,
    spawned: bool,
    out_subtask_ptr: i32,
) -> (code: i32)
    ensures
        old(env).changes_only_webgpu(*final(env)),
        ({
            let (after, mem_after, result) = adapter_request_spawned(
                old(env).state.webgpu@,
                old(memory)@,
                task.handle,
                spawned,
                out_subtask_ptr,
            );
            &&& final(env).state.webgpu@ == after
            &&& final(memory)@ == mem_after
            &&& code == super::abi::status(result)
        }),
        old(env).wf() ==> final(env).wf(),
{
    if !spawned {
        let _ = env.state.webgpu.drop_waitable(task.handle, WaitableKind::Subtask);
        return WebgpuErrno::Unsupported.to_i32();
    }
    status_of(deliver(memory, out_subtask_ptr, task.handle))
}

} // verus!
