//! `future_drop`: releasing a future.

use vstd::prelude::*;

use super::abi::{guest_handle, status_of};
use crate::backend::NnBackend;
use crate::env::WasiEnv;
use crate::state::webgpu::{WaitableKind, WebgpuErrno, WebgpuView};

verus! {

/// The tables after a call of `future_drop`, and what it comes out as.
pub open spec fn future_dropped(allow: bool, before: WebgpuView, future: i32) -> (WebgpuView, Result<
    (),
    WebgpuErrno,
>) {
    match super::abi::handle_of(future) {
        _ if !allow => (before, Err(WebgpuErrno::CapabilityDenied)),
        Err(errno) => (before, Err(errno)),
        Ok(handle) => if before.names(handle, WaitableKind::Future) {
            (before.drop_waitable(handle, WaitableKind::Future), Ok(()))
        } else {
            (before, Err(WebgpuErrno::BadHandle))
        },
    }
}

/// Releases future `future`.
pub fn future_drop_inner<B: NnBackend>(env: &mut WasiEnv<B>, future: i32) -> (result: Result<
    (),
    WebgpuErrno,
>)
    ensures
        old(env).changes_only_webgpu(*final(env)),
        (final(env).state.webgpu@, result) == future_dropped(
            old(env).capabilities.webgpu_spike.allow,
            old(env).state.webgpu@,
            future,
        ),
        old(env).wf() ==> final(env).wf(),
{
    if !env.capabilities.webgpu_spike.allow {
        return Err(WebgpuErrno::CapabilityDenied);
    }
    let handle: u32 = match guest_handle(future) {
        Ok(handle) => handle,
        Err(errno) => return Err(errno),
    };
    env.state.webgpu.drop_waitable(handle, WaitableKind::Future)
}

/// `future_drop()`: releases future `future`, resolved or not. A handle that
/// names a subtask instead is refused with `BadHandle`.
pub fn future_drop<B: NnBackend>(env: &mut WasiEnv<B>, future: i32) -> (code: i32)
    ensures
        old(env).changes_only_webgpu(*final(env)),
        ({
            let (after, result) = future_dropped(
                old(env).capabilities.webgpu_spike.allow,
                old(env).state.webgpu@,
                future,
            );
            final(env).state.webgpu@ == after && code == super::abi::status(result)
        }),
        old(env).wf() ==> final(env).wf(),
{
    status_of(future_drop_inner(env, future))
}

} // verus!
