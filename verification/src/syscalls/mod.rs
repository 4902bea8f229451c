//! The host functions. Each takes the calling process and, where it reads or
//! writes it, the guest's memory, and returns the code that the guest sees.

pub mod wasi_nn;
pub mod wasi_webgpu;
pub mod wasi_webgpu_spike;
