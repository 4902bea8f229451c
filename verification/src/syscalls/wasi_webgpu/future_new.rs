//! `future_new`: making a future.

use vstd::prelude::*;

use super::abi::{deliver, status_of};
use crate::backend::NnBackend;
use crate::env::WasiEnv;
use crate::memory::GuestMemory;
use crate::state::webgpu::{WaitableKind, WebgpuErrno, WebgpuView};

verus! {

/// A call of `future_new` may take the tables from `before` to `after` and guest
/// memory from `mem` to `mem_after`, and come out as `result`. The future is
/// registered before its handle is written, and stays registered where the
/// handle cannot be written.
pub open spec fn future_made(
    allow: bool,
    before: WebgpuView,
    mem: Seq<u8>,
    out_future_ptr: i32,
    after: WebgpuView,
    mem_after: Seq<u8>,
    result: Result<(), WebgpuErrno>,
) -> bool {
    let handle = (before.issued + 1) as u32;
    if !allow {
        after == before && mem_after == mem && result == Err::<(), WebgpuErrno>(
            WebgpuErrno::CapabilityDenied,
        )
    } else if before.issued == u32::MAX {
        after == before && mem_after == mem && result == Err::<(), WebgpuErrno>(WebgpuErrno::TooManyHandles)
    } else {
        &&& before.registers(handle, WaitableKind::Future, after)
        &&& (mem_after, result) == super::abi::delivered(mem, out_future_ptr, handle)
    }
}

/// Makes a future and writes its handle to `out_future_ptr`.
pub fn future_new_inner<B: NnBackend>(
    env: &mut WasiEnv<B>,
    memory: &mut GuestMemory,
    out_future_ptr: i32,
) -> (result: Result<(), WebgpuErrno>)
    ensures
        old(env).changes_only_webgpu(*final(env)),
        future_made(
            old(env).capabilities.webgpu_spike.allow,
            old(env).state.webgpu@,
            old(memory)@,
            out_future_ptr,
            final(env).state.webgpu@,
            final(memory)@,
            result,
        ),
        old(env).wf() ==> final(env).wf(),
{
    if !env.capabilities.webgpu_spike.allow {
        return Err(WebgpuErrno::CapabilityDenied);
    }
    let handle: u32 = match env.state.webgpu.insert_pending(WaitableKind::Future) {
        Ok(handle) => handle,
        Err(errno) => return Err(errno),
    };
    deliver(memory, out_future_ptr, handle)
}

/// `future_new()`: makes a future without a value and writes its handle to
/// `out_future_ptr`. Nothing fills it in until `future_resolve_after` is asked
/// to.
pub fn future_new<B: NnBackend>(
    env: &mut WasiEnv<B>,
    memory: &mut GuestMemory,
    out_future_ptr: i32,
) -> (code: i32)
    ensures
        old(env).changes_only_webgpu(*final(env)),
        exists|result: Result<(), WebgpuErrno>|
            code == super::abi::status(result) && #[trigger] future_made(
                old(env).capabilities.webgpu_spike.allow,
                old(env).state.webgpu@,
                old(memory)@,
                out_future_ptr,
                final(env).state.webgpu@,
                final(memory)@,
                result,
            ),
        old(env).wf() ==> final(env).wf(),
{
    status_of(future_new_inner(env, memory, out_future_ptr))
}

} // verus!
