//! Per-process tables behind the host functions. None of them survives `fork`,
//! a snapshot or a restore: each of those starts from fresh, empty tables.

pub mod nn;
pub mod wake;
pub mod webgpu;
pub mod webgpu_laws;
