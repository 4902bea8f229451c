//! Host imports of the `wasi_webgpu_v0` namespace: start an operation, join it
//! to a waitable set, and wait on the set until a member has resolved. Pointers
//! and handles are passed as signed 32-bit integers.
//!
//! Nothing here blocks. An import that starts background work answers with the
//! [`background::BackgroundTask`] to run, and the one import that suspends its
//! caller, `waitable_set_wait`, answers with what to await before it is called
//! again. Every import is refused with `CapabilityDenied` unless the embedder
//! allows the namespace.

pub mod abi;
pub mod background;
pub mod future_drop;
pub mod future_new;
pub mod future_read;
pub mod future_resolve_after;
pub mod import_laws;
pub mod laws;
pub mod request_adapter_start;
pub mod subtask_drop;
pub mod waitable_join;
pub mod waitable_set_new;
pub mod waitable_set_wait;
