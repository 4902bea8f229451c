//! An engine backed by the `candle` crate: it runs a stack of layers on the CPU.

pub mod backend;
pub mod fold;
pub mod fold_laws;
pub mod header;
pub mod laws;
pub mod load;
pub mod load_laws;
pub mod ops;
pub mod run;
pub mod run_laws;
pub mod shape;
pub mod shape_laws;
