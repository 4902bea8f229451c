//! Work that resolves a waitable in the background.

use vstd::prelude::*;

use crate::state::wake::Woken;
use crate::state::webgpu::WebgpuState;

verus! {

/// The delay, in milliseconds, that stands for a native GPU operation where the
/// guest asks for none.
pub const DEFAULT_SIMULATED_DELAY_MS: u32 = 50;

/// The delay that a guest's `delay_ms` stands for.
pub open spec fn delay_of(delay_ms: i32) -> u32 {
    if delay_ms > 0 {
        delay_ms as u32
    } else {
        DEFAULT_SIMULATED_DELAY_MS
    }
}

/// Reads a guest's `delay_ms`.
pub fn guest_delay(delay_ms: i32) -> (delay: u32)
    ensures
        delay == delay_of(delay_ms),
{
    if delay_ms > 0 {
        delay_ms as u32
    } else {
        DEFAULT_SIMULATED_DELAY_MS
    }
}

/// Work to be run in the background: once `delay_ms` milliseconds have passed,
/// the waitable `handle` resolves with `payload`.
#[derive(Debug, Clone, Copy, PartialEq, Eq, Structural)]
pub struct BackgroundTask {
    pub handle: u32,
    pub payload: u32,
    pub delay_ms: u32,
}

impl BackgroundTask {
    /// What is to be done once the delay has passed: the waitable resolves, and
    /// whoever waits on it is woken.
    pub fn complete(self, webgpu: &mut WebgpuState) -> (woken: Option<Woken>)
        ensures
            final(webgpu)@ == old(webgpu)@.resolve(self.handle, self.payload),
            crate::state::webgpu::woken_notify(woken) == old(webgpu)@.wakes(self.handle),
            old(webgpu)@.wf() ==> final(webgpu)@.wf(),
    {
        webgpu.resolve_waitable(self.handle, self.payload)
    }
}

} // verus!
