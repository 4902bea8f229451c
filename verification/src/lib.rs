//! Host side of two guest-facing accelerator ABIs: `wasi_ephemeral_nn`, the
//! core-wasm WASI-NN inference interface, and `wasi_webgpu_v0`, a small
//! start/join/wait subset of the Component Model's async interface.

pub mod backend;
pub mod candle;
pub mod env;
pub mod memory;
pub mod state;
pub mod stub;
pub mod syscalls;
pub mod types;
