//! `set_input`: handing a tensor from guest memory to a context.

use vstd::prelude::*;

use super::types::{read_tensor_record, WasmTensor};
use crate::backend::{NnBackend, NnExecutionContext, NnGraph};
use crate::env::WasiEnv;
use crate::memory::GuestMemory;
use crate::types::{nn_errno_of, NnErrno, Tensor, TensorType, TensorView};

verus! {

/// The tensor that `record` describes, or why there is none.
pub open spec fn tensor_of(mem: Seq<u8>, record: WasmTensor) -> Result<TensorView, NnErrno> {
    match TensorType::of_tag(record.ty) {
        Err(errno) => Err(errno),
        Ok(ty) => match (
            crate::memory::u32s_read(mem, record.dimensions_ptr, record.dimensions_len),
            crate::memory::bytes_read(mem, record.data_ptr, record.data_len),
        ) {
            (Some(dimensions), Some(data)) => Ok(TensorView { dimensions, ty, data }),
            _ => Err(NnErrno::MissingMemory),
        },
    }
}

/// The tensor that the record at `tensor_ptr` describes, or why there is none.
pub open spec fn tensor_at(mem: Seq<u8>, tensor_ptr: u32) -> Result<TensorView, NnErrno> {
    match super::types::tensor_record_at(mem, tensor_ptr) {
        None => Err(NnErrno::MissingMemory),
        Some(record) => tensor_of(mem, record),
    }
}

/// Reads the tensor that the record at `tensor_ptr` describes.
pub fn read_tensor(memory: &GuestMemory, tensor_ptr: u32) -> (result: Result<Tensor, NnErrno>)
    ensures
        match result {
            Ok(tensor) => tensor_at(memory@, tensor_ptr) == Ok::<TensorView, NnErrno>(tensor@),
            Err(errno) => tensor_at(memory@, tensor_ptr) == Err::<TensorView, NnErrno>(errno),
        },
{
    let record: WasmTensor = match read_tensor_record(memory, tensor_ptr) {
        Ok(record) => record,
        Err(_) => return Err(NnErrno::MissingMemory),
    };
    let ty = match TensorType::try_from(record.ty) {
        Ok(ty) => ty,
        Err(errno) => return Err(errno),
    };
    let dimensions: Vec<u32> = match memory.read_u32s(record.dimensions_ptr, record.dimensions_len) {
        Ok(dimensions) => dimensions,
        Err(_) => return Err(NnErrno::MissingMemory),
    };
    let data: Vec<u8> = match memory.read_bytes(record.data_ptr, record.data_len) {
        Ok(data) => data,
        Err(_) => return Err(NnErrno::MissingMemory),
    };
    Ok(Tensor { dimensions, ty, data })
}

/// `set_input()`: sets input `index` of context `context` to the tensor that the
/// record at `tensor_ptr` describes.
pub fn nn_set_input<B: NnBackend>(
    env: &mut WasiEnv<B>,
    memory: &GuestMemory,
    context: u32,
    index: u32,
    tensor_ptr: u32,
) -> (code: u32)
    ensures
        old(env).changes_only_nn(*final(env)),
        if !old(env).capabilities.nn.allow {
            code == NnErrno::UnsupportedOperation.code() && *final(env) == *old(env)
        } else {
            match tensor_at(memory@, tensor_ptr) {
                Err(errno) => code == errno.code() && *final(env) == *old(env),
                Ok(tensor) => if !old(env).state.nn@.contexts.contains_key(context) {
                    code == NnErrno::NotFound.code() && final(env).state.nn@ == old(env).state.nn@
                } else {
                    exists|after: <B::Graph as NnGraph>::Context, result: Result<(), NnErrno>|
                        {
                            &&& #[trigger] <B::Graph as NnGraph>::Context::set_input_outcome(
                                old(env).state.nn@.contexts[context],
                                index,
                                tensor,
                                after,
                                result,
                            )
                            &&& final(env).state.nn@ == old(env).state.nn@.with_context(context, after)
                            &&& code == crate::types::nn_return(result)
                        }
                },
            }
        },
        old(env).wf() ==> final(env).wf(),
{
    if !env.capabilities.nn.allow {
        return NnErrno::UnsupportedOperation.to_u32();
    }
    let tensor = match read_tensor(memory, tensor_ptr) {
        Ok(tensor) => tensor,
        Err(errno) => return errno.to_u32(),
    };
    match env.state.nn.context_mut(context) {
        Some(exec_ctx) => {
            let result = exec_ctx.set_input(index, tensor);
            nn_errno_of(result)
        },
        None => NnErrno::NotFound.to_u32(),
    }
}

} // verus!
