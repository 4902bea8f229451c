//! `subtask_drop`: releasing a subtask.

use vstd::prelude::*;

use super::abi::{guest_handle, status_of};
use crate::backend::NnBackend;
use crate::env::WasiEnv;
use crate::state::webgpu::{WaitableKind, WebgpuErrno, WebgpuView};

verus! {

/// The tables after a call of `subtask_drop`, and what it comes out as.
pub open spec fn subtask_dropped(allow: bool, before: WebgpuView, subtask: i32) -> (WebgpuView, Result<
    (),
    WebgpuErrno,
>) {
    match super::abi::handle_of(subtask) {
        _ if !allow => (before, Err(WebgpuErrno::CapabilityDenied)),
        Err(errno) => (before, Err(errno)),
        Ok(handle) => if before.names(handle, WaitableKind::Subtask) {
            (before.drop_waitable(handle, WaitableKind::Subtask), Ok(()))
        } else {
            (before, Err(WebgpuErrno::BadHandle))
        },
    }
}

/// Releases subtask `subtask`.
pub fn subtask_drop_inner<B: NnBackend>(env: &mut WasiEnv<B>, subtask: i32) -> (result: Result<
    (),
    WebgpuErrno,
>)
    ensures
        old(env).changes_only_webgpu(*final(env)),
        (final(env).state.webgpu@, result) == subtask_dropped(
            old(env).capabilities.webgpu_spike.allow,
            old(env).state.webgpu@,
            subtask,
        ),
        old(env).wf() ==> final(env).wf(),
{
    if !env.capabilities.webgpu_spike.allow {
        return Err(WebgpuErrno::CapabilityDenied);
    }
    let handle: u32 = match guest_handle(subtask) {
        Ok(handle) => handle,
        Err(errno) => return Err(errno),
    };
    env.state.webgpu.drop_waitable(handle, WaitableKind::Subtask)
}

/// `subtask_drop()`: releases subtask `subtask`, resolved or not. A handle that
/// names a future instead is refused with `BadHandle`. The
/// background work of a pending subtask then resolves nothing.
pub fn subtask_drop<B: NnBackend>(env: &mut WasiEnv<B>, subtask: i32) -> (code: i32)
    ensures
        old(env).changes_only_webgpu(*final(env)),
        ({
            let (after, result) = subtask_dropped(
                old(env).capabilities.webgpu_spike.allow,
                old(env).state.webgpu@,
                subtask,
            );
            final(env).state.webgpu@ == after && code == super::abi::status(result)
        }),
        old(env).wf() ==> final(env).wf(),
{
    status_of(subtask_drop_inner(env, subtask))
}

} // verus!
