//! Host functions of the `wasi_ephemeral_nn` namespace. Pointers are 32 bits
//! wide. Every function is refused with `UnsupportedOperation` unless the
//! embedder allows the namespace.

pub mod compute;
pub mod function_laws;
pub mod get_output;
pub mod init_execution_context;
pub mod laws;
pub mod load;
pub mod load_by_name;
pub mod set_input;
pub mod types;
