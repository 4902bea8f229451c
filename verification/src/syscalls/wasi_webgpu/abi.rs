//! How handles, pointers and results cross the boundary to the guest.

use vstd::prelude::*;

use crate::memory::{guest_offset, GuestMemory};
use crate::state::webgpu::WebgpuErrno;

verus! {

/// The handle that a guest's integer stands for.
pub open spec fn handle_of(raw: i32) -> Result<u32, WebgpuErrno> {
    if raw < 0 {
        Err(WebgpuErrno::BadHandle)
    } else {
        Ok(raw as u32)
    }
}

/// Reads a guest's integer as a handle.
pub fn guest_handle(raw: i32) -> (result: Result<u32, WebgpuErrno>)
    ensures
        result == handle_of(raw),
{
    match u32::try_from(raw) {
        Ok(handle) => Ok(handle),
        Err(_) => Err(WebgpuErrno::BadHandle),
    }
}

/// The status code of a result.
pub open spec fn status(result: Result<(), WebgpuErrno>) -> int {
    match result {
        Ok(()) => WebgpuErrno::Success.code(),
        Err(errno) => errno.code(),
    }
}

/// The status code of a result, as the guest sees it.
pub fn status_of(result: Result<(), WebgpuErrno>) -> (code: i32)
    ensures
        code == status(result),
{
    match result {
        Ok(()) => WebgpuErrno::Success.to_i32(),
        Err(errno) => errno.to_i32(),
    }
}

/// What becomes of guest memory when `value` is handed to the guest at
/// `out_ptr`, and whether that succeeds.
pub open spec fn delivered(mem: Seq<u8>, out_ptr: i32, value: u32) -> (Seq<u8>, Result<(), WebgpuErrno>) {
    match crate::memory::u32_written(mem, crate::memory::offset_of(out_ptr), value) {
        Some(after) => (after, Ok(())),
        None => (mem, Err(WebgpuErrno::MissingMemory)),
    }
}

/// Hands `value` to the guest at `out_ptr`.
pub fn deliver(memory: &mut GuestMemory, out_ptr: i32, value: u32) -> (result: Result<(), WebgpuErrno>)
    ensures
        (final(memory)@, result) == delivered(old(memory)@, out_ptr, value),
{
    match memory.write_u32(guest_offset(out_ptr), value) {
        Ok(()) => Ok(()),
        Err(_) => Err(WebgpuErrno::MissingMemory),
    }
}

} // verus!
