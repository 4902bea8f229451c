//! `waitable_set_new`: making a waitable set.

use vstd::prelude::*;

use super::abi::{deliver, status_of};
use crate::backend::NnBackend;
use crate::env::WasiEnv;
use crate::memory::GuestMemory;
use crate::state::webgpu::{WebgpuErrno, WebgpuView};

verus! {

/// The tables and guest memory after a call of `waitable_set_new`, and what it
/// comes out as. The set is registered before its handle is written, and stays
/// registered where the handle cannot be written.
pub open spec fn set_made(allow: bool, before: WebgpuView, mem: Seq<u8>, out_set_ptr: i32) -> (
    WebgpuView,
    Seq<u8>,
    Result<(), WebgpuErrno>,
) {
    let handle = (before.issued + 1) as u32;
    if !allow {
        (before, mem, Err(WebgpuErrno::CapabilityDenied))
    } else if before.issued == u32::MAX {
        (before, mem, Err(WebgpuErrno::TooManyHandles))
    } else {
        let (mem_after, result) = super::abi::delivered(mem, out_set_ptr, handle);
        (before.with_set(handle), mem_after, result)
    }
}

/// Makes an empty waitable set and writes its handle to `out_set_ptr`.
pub fn waitable_set_new_inner<B: NnBackend>(
    env: &mut WasiEnv<B>,
    memory: &mut GuestMemory,
    out_set_ptr: i32,
) -> (result: Result<(), WebgpuErrno>)
    ensures
        old(env).changes_only_webgpu(*final(env)),
        (final(env).state.webgpu@, final(memory)@, result) == set_made(
            old(env).capabilities.webgpu_spike.allow,
            old(env).state.webgpu@,
            old(memory)@,
            out_set_ptr,
        ),
        old(env).wf() ==> final(env).wf(),
{
    if !env.capabilities.webgpu_spike.allow {
        return Err(WebgpuErrno::CapabilityDenied);
    }
    let handle: u32 = match env.state.webgpu.new_waitable_set() {
        Ok(handle) => handle,
        Err(errno) => return Err(errno),
    };
    deliver(memory, out_set_ptr, handle)
}

/// `waitable_set_new()`: makes an empty waitable set and writes its handle to
/// `out_set_ptr`.
pub fn waitable_set_new<B: NnBackend>(
    env: &mut WasiEnv<B>,
    memory: &mut GuestMemory,
    out_set_ptr: i32,
) -> (code: i32)
    ensures
        old(env).changes_only_webgpu(*final(env)),
        ({
            let (after, mem_after, result) = set_made(
                old(env).capabilities.webgpu_spike.allow,
                old(env).state.webgpu@,
                old(memory)@,
                out_set_ptr,
            );
            &&& final(env).state.webgpu@ == after
            &&& final(memory)@ == mem_after
            &&& code == super::abi::status(result)
        }),
        old(env).wf() ==> final(env).wf(),
{
    status_of(waitable_set_new_inner(env, memory, out_set_ptr))
}

} // verus!
