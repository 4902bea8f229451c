//! `future_read`: reading the value of a future.

use vstd::prelude::*;

use super::abi::{deliver, guest_handle, status_of};
use crate::backend::NnBackend;
use crate::env::WasiEnv;
use crate::memory::GuestMemory;
use crate::state::webgpu::{WebgpuErrno, WebgpuView};

verus! {

/// Guest memory after a call of `future_read`, and what it comes out as.
pub open spec fn future_value_read(
    allow: bool,
    tables: WebgpuView,
    mem: Seq<u8>,
    future: i32,
    out_value_ptr: i32,
) -> (Seq<u8>, Result<(), WebgpuErrno>) {
    match super::abi::handle_of(future) {
        _ if !allow => (mem, Err(WebgpuErrno::CapabilityDenied)),
        Err(errno) => (mem, Err(errno)),
        Ok(handle) => match tables.read_future(handle) {
            Err(errno) => (mem, Err(errno)),
            Ok(None) => (mem, Err(WebgpuErrno::Blocked)),
            Ok(Some(value)) => super::abi::delivered(mem, out_value_ptr, value),
        },
    }
}

/// Reads the value of future `future` and writes it to `out_value_ptr`.
pub fn future_read_inner<B: NnBackend>(
    env: &WasiEnv<B>,
    memory: &mut GuestMemory,
    future: i32,
    out_value_ptr: i32,
) -> (result: Result<(), WebgpuErrno>)
    ensures
        (final(memory)@, result) == future_value_read(
            env.capabilities.webgpu_spike.allow,
            env.state.webgpu@,
            old(memory)@,
            future,
            out_value_ptr,
        ),
{
    if !env.capabilities.webgpu_spike.allow {
        return Err(WebgpuErrno::CapabilityDenied);
    }
    let handle: u32 = match guest_handle(future) {
        Ok(handle) => handle,
        Err(errno) => return Err(errno),
    };
    match env.state.webgpu.read_future(handle) {
        Ok(Some(value)) => deliver(memory, out_value_ptr, value),
        Ok(None) => Err(WebgpuErrno::Blocked),
        Err(errno) => Err(errno),
    }
}

/// `future_read()`: writes the value of future `future` to `out_value_ptr`.
/// While there is no value the answer is `Blocked` and nothing is written: the
/// guest then joins the future to a waitable set and waits. A handle that names
/// no future is refused with `BadHandle`.
pub fn future_read<B: NnBackend>(
    env: &WasiEnv<B>,
    memory: &mut GuestMemory,
    future: i32,
    out_value_ptr: i32,
) -> (code: i32)
    ensures
        ({
            let (mem_after, result) = future_value_read(
                env.capabilities.webgpu_spike.allow,
                env.state.webgpu@,
                old(memory)@,
                future,
                out_value_ptr,
            );
            final(memory)@ == mem_after && code == super::abi::status(result)
        }),
{
    status_of(future_read_inner(env, memory, future, out_value_ptr))
}

} // verus!
