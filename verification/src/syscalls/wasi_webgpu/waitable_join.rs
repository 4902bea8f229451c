//! `waitable_join`: putting a waitable into a waitable set.

use vstd::prelude::*;

use super::abi::{guest_handle, status_of};
use crate::backend::NnBackend;
use crate::env::WasiEnv;
use crate::state::webgpu::{WebgpuErrno, WebgpuView};

verus! {

/// The tables after a call of `waitable_join`, and what it comes out as.
pub open spec fn joined(allow: bool, before: WebgpuView, waitable: i32, set: i32) -> (WebgpuView, Result<
    (),
    WebgpuErrno,
>) {
    match (super::abi::handle_of(waitable), super::abi::handle_of(set)) {
        _ if !allow => (before, Err(WebgpuErrno::CapabilityDenied)),
        (Ok(waitable), Ok(set)) => (before.join(waitable, set), before.join_result(waitable, set)),
        _ => (before, Err(WebgpuErrno::BadHandle)),
    }
}

/// Puts `waitable` into `set`.
pub fn waitable_join_inner<B: NnBackend>(env: &mut WasiEnv<B>, waitable: i32, set: i32) -> (result: Result<
    (),
    WebgpuErrno,
>)
    ensures
        old(env).changes_only_webgpu(*final(env)),
        (final(env).state.webgpu@, result) == joined(
            old(env).capabilities.webgpu_spike.allow,
            old(env).state.webgpu@,
            waitable,
            set,
        ),
        old(env).wf() ==> final(env).wf(),
{
    if !env.capabilities.webgpu_spike.allow {
        return Err(WebgpuErrno::CapabilityDenied);
    }
    let waitable: u32 = match guest_handle(waitable) {
        Ok(waitable) => waitable,
        Err(errno) => return Err(errno),
    };
    let set: u32 = match guest_handle(set) {
        Ok(set) => set,
        Err(errno) => return Err(errno),
    };
    env.state.webgpu.join(waitable, set)
}

/// `waitable_join()`: puts the subtask or future `waitable` into the waitable
/// set `set`. A set that is full refuses with `SetOccupied`.
pub fn waitable_join<B: NnBackend>(env: &mut WasiEnv<B>, waitable: i32, set: i32) -> (code: i32)
    ensures
        old(env).changes_only_webgpu(*final(env)),
        ({
            let (after, result) = joined(
                old(env).capabilities.webgpu_spike.allow,
                old(env).state.webgpu@,
                waitable,
                set,
            );
            final(env).state.webgpu@ == after && code == super::abi::status(result)
        }),
        old(env).wf() ==> final(env).wf(),
{
    status_of(waitable_join_inner(env, waitable, set))
}

} // verus!
