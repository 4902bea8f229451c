//! `future_resolve_after`: filling in a future in the background.

use vstd::prelude::*;

use super::abi::guest_handle;
use super::background::{guest_delay, BackgroundTask};
use crate::backend::NnBackend;
use crate::env::WasiEnv;
use crate::memory::guest_offset;
use crate::state::webgpu::{WebgpuErrno, WebgpuView};

verus! {

/// The work that a call of `future_resolve_after` asks for, or why there is none.
pub open spec fn resolution_asked(
    allow: bool,
    tables: WebgpuView,
    future: i32,
    value: i32,
    delay_ms: i32,
) -> Result<BackgroundTask, WebgpuErrno> {
    match super::abi::handle_of(future) {
        _ if !allow => Err(WebgpuErrno::CapabilityDenied),
        Err(errno) => Err(errno),
        Ok(handle) => match tables.read_future(handle) {
            Err(errno) => Err(errno),
            Ok(_) => Ok(
                BackgroundTask {
                    handle,
                    payload: crate::memory::offset_of(value),
                    delay_ms: super::background::delay_of(delay_ms),
                },
            ),
        },
    }
}

/// `future_resolve_after()`: fills in the future `future`, which `future_new`
/// made, with `value` once `delay_ms` milliseconds (or the default delay, if
/// that is not positive) have passed. Answers with the work to run in the
/// background, or with the code that the guest sees where there is none: a
/// handle that names no future is refused with `BadHandle` at once.
pub fn future_resolve_after<B: NnBackend>(
    env: &WasiEnv<B>,
    future: i32,
    value: i32,
    delay_ms: i32,
) -> (result: Result<BackgroundTask, i32>)
    ensures
        match resolution_asked(
            env.capabilities.webgpu_spike.allow,
            env.state.webgpu@,
            future,
            value,
            delay_ms,
        ) {
            Ok(task) => result == Ok::<BackgroundTask, i32>(task),
            Err(errno) => result is Err && result->Err_0 == errno.code(),
        },
{
    match future_resolve_after_inner(env, future, value, delay_ms) {
        Ok(task) => Ok(task),
        Err(errno) => Err(errno.to_i32()),
    }
}

/// Checks a call of `future_resolve_after` and gathers the work it asks for.
pub fn future_resolve_after_inner<B: NnBackend>(
    env: &WasiEnv<B>,
    future: i32,
    value: i32,
    delay_ms: i32,
) -> (result: Result<BackgroundTask, WebgpuErrno>)
    ensures
        result == resolution_asked(
            env.capabilities.webgpu_spike.allow,
            env.state.webgpu@,
            future,
            value,
            delay_ms,
        ),
{
    if !env.capabilities.webgpu_spike.allow {
        return Err(WebgpuErrno::CapabilityDenied);
    }
    let handle: u32 = match guest_handle(future) {
        Ok(handle) => handle,
        Err(errno) => return Err(errno),
    };
    match env.state.webgpu.read_future(handle) {
        Ok(_) => Ok(
            BackgroundTask { handle, payload: guest_offset(value), delay_ms: guest_delay(delay_ms) },
        ),
        Err(errno) => Err(errno),
    }
}

/// The code that the guest sees once the work was handed to the task pool, or
/// was refused there.
pub fn future_resolve_scheduled(spawned: bool) -> (code: i32)
    ensures
        code == super::abi::status(
            if spawned {
                Ok(())
            } else {
                Err(WebgpuErrno::Unsupported)
            },
        ),
{
    if spawned {
        WebgpuErrno::Success.to_i32()
    } else {
        WebgpuErrno::Unsupported.to_i32()
    }
}

} // verus!
