//! The first import of `wasi_webgpu_v0`: one fake request for an adapter, which
//! suspends its caller for a while and then hands it the result. It is not
//! gated by a capability.

use vstd::prelude::*;

use crate::memory::{guest_offset, GuestMemory};

verus! {

/// The adapter handle that the guest is given. There is no adapter behind it.
pub const FAKE_ADAPTER_ID: u32 = 1;

/// How long, in milliseconds, the caller is suspended before
/// [`request_adapter_spike`] answers it.
pub const SIMULATED_DELAY_MS: u32 = 50;

/// `request_adapter_spike()`: what is done once the delay has passed. The
/// adapter handle is written to `out_ptr`.
pub fn request_adapter_spike(memory: &mut GuestMemory, out_ptr: i32) -> (code: i32)
    ensures
        match crate::memory::u32_written(old(memory)@, crate::memory::offset_of(out_ptr), FAKE_ADAPTER_ID) {
            Some(after) => code == 0 && final(memory)@ == after,
            None => code == -1 && final(memory)@ == old(memory)@,
        },
{
    match memory.write_u32(guest_offset(out_ptr), FAKE_ADAPTER_ID) {
        Ok(()) => 0,
        Err(_) => -1,
    }
}

/// Stands in for [`request_adapter_spike`] where the engine cannot run async
/// code.
pub fn request_adapter_spike_not_supported(_out_ptr: i32) -> (code: i32)
    ensures
        code == -2,
{
    -2
}

} // verus!
