//! Layouts of the records that `wasi_ephemeral_nn` passes through guest memory:
//! the fields in declaration order, each at its natural alignment.

use vstd::prelude::*;

use crate::memory::{GuestMemory, OutOfBounds};

verus! {

/// `$graph_builder`: one raw model byte blob in guest memory.
#[derive(Debug, Clone, Copy, PartialEq, Eq, Structural)]
pub struct WasmGraphBuilder {
    pub ptr: u32,
    pub len: u32,
}

/// `$tensor`: a list of dimensions, an element type, and a list of element
/// bytes, the lists in guest memory.
#[derive(Debug, Clone, Copy, PartialEq, Eq, Structural)]
pub struct WasmTensor {
    pub dimensions_ptr: u32,
    pub dimensions_len: u32,
    pub ty: u8,
    pub data_ptr: u32,
    pub data_len: u32,
}

/// The size of a `$graph_builder` record.
pub const GRAPH_BUILDER_SIZE: u32 = 8;

/// The size of a `$tensor` record: three bytes of padding follow `ty`.
pub const TENSOR_SIZE: u32 = 20;

impl WasmGraphBuilder {
    /// The record in the bytes of `mem` at `at`.
    pub open spec fn at(mem: Seq<u8>, at: int) -> WasmGraphBuilder {
        WasmGraphBuilder {
            ptr: crate::memory::u32_at(mem, at),
            len: crate::memory::u32_at(mem, at + 4),
        }
    }
}

impl WasmTensor {
    /// The record in the bytes of `mem` at `at`.
    pub open spec fn at(mem: Seq<u8>, at: int) -> WasmTensor {
        WasmTensor {
            dimensions_ptr: crate::memory::u32_at(mem, at),
            dimensions_len: crate::memory::u32_at(mem, at + 4),
            ty: mem[at + 8],
            data_ptr: crate::memory::u32_at(mem, at + 12),
            data_len: crate::memory::u32_at(mem, at + 16),
        }
    }
}

/// What a read of `len` consecutive `$graph_builder` records gives.
pub open spec fn builders_at(mem: Seq<u8>, at: u32, len: u32) -> Option<Seq<WasmGraphBuilder>> {
    if crate::memory::in_bounds(mem.len(), at as int, GRAPH_BUILDER_SIZE * len) {
        Some(Seq::new(len as nat, |i: int| WasmGraphBuilder::at(mem, at + GRAPH_BUILDER_SIZE * i)))
    } else {
        None
    }
}

/// Reads `len` consecutive `$graph_builder` records.
pub fn read_builders(memory: &GuestMemory, at: u32, len: u32) -> (result: Result<
    Vec<WasmGraphBuilder>,
    OutOfBounds,
>)
    ensures
        match result {
            Ok(builders) => builders_at(memory@, at, len) == Some(builders@),
            Err(_) => builders_at(memory@, at, len) is None,
        },
{
    if !memory.contains(at as u64, 8 * len as u64) {
        return Err(OutOfBounds);
    }
    let size: usize = memory.size();
    let mut builders: Vec<WasmGraphBuilder> = Vec::with_capacity(len as usize);
    let mut i: usize = 0;
    while i < len as usize
        invariant
            i <= len,
            size == memory@.len(),
            at + 8 * len <= memory@.len(),
            builders@ == Seq::new(
                i as nat,
                |j: int| WasmGraphBuilder::at(memory@, at + GRAPH_BUILDER_SIZE * j),
            ),
        decreases len - i,
    {
        let record: usize = at as usize + 8 * i;
        builders.push(
            WasmGraphBuilder {
                ptr: memory.u32_inside(record),
                len: memory.u32_inside(record + 4),
            },
        );
        i += 1;
    }
    Ok(builders)
}

/// What a read of a `$tensor` record gives.
pub open spec fn tensor_record_at(mem: Seq<u8>, at: u32) -> Option<WasmTensor> {
    if crate::memory::in_bounds(mem.len(), at as int, TENSOR_SIZE as int) {
        Some(WasmTensor::at(mem, at as int))
    } else {
        None
    }
}

/// Reads a `$tensor` record.
pub fn read_tensor_record(memory: &GuestMemory, at: u32) -> (result: Result<WasmTensor, OutOfBounds>)
    ensures
        match result {
            Ok(record) => tensor_record_at(memory@, at) == Some(record),
            Err(_) => tensor_record_at(memory@, at) is None,
        },
{
    if !memory.contains(at as u64, 20) {
        return Err(OutOfBounds);
    }
    let size: usize = memory.size();
    let at: usize = at as usize;
    Ok(
        WasmTensor {
            dimensions_ptr: memory.u32_inside(at),
            dimensions_len: memory.u32_inside(at + 4),
            ty: memory.byte_inside(at + 8),
            data_ptr: memory.u32_inside(at + 12),
            data_len: memory.u32_inside(at + 16),
        },
    )
}

} // verus!
