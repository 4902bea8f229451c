//! What each of the `wasi_ephemeral_nn` functions does: when it succeeds, which
//! errno it answers otherwise, what the engine is asked, and what becomes of the
//! tables and of guest memory.

use vstd::prelude::*;

use super::load::{LoadRequest, LoadRequestView};
use super::types::{WasmGraphBuilder, WasmTensor};
use crate::backend::{NnBackend, NnExecutionContext, NnGraph};
use crate::env::{CapabilityNnV1, WasiEnv};
use crate::memory::{GuestMemory, OutOfBounds};
use crate::state::nn::{NnState, NnView};
use crate::types::{NnErrno, Tensor, TensorView};

verus! {

/// The process differs in the tables of the namespace at most.
pub open spec fn keeps_the_rest<B: NnBackend>(before: WasiEnv<B>, after: WasiEnv<B>) -> bool {
    &&& after.capabilities == before.capabilities
    &&& after.state.webgpu == before.state.webgpu
    &&& after.state.nn_backend == before.state.nn_backend
}

/// `code` is what the guest sees for `result`: zero, or the tag of the error.
pub open spec fn answers(code: u32, result: Result<(), NnErrno>) -> bool {
    &&& result is Ok ==> code == 0
    &&& result is Err ==> code == result->Err_0.code()
}

/// `after` has `context` under `handle`, and everything else is as it was.
pub open spec fn one_context_changed<G, C>(
    before: NnView<G, C>,
    handle: u32,
    context: C,
    after: NnView<G, C>,
) -> bool {
    &&& after.issued == before.issued
    &&& after.graphs == before.graphs
    &&& after.contexts.dom() == before.contexts.dom()
    &&& after.contexts[handle] == context
    &&& forall|h: u32|
        h != handle && before.contexts.contains_key(h) ==> #[trigger] after.contexts[h]
            == before.contexts[h]
}

/// The record at `at` and the two lists that it points to lie inside the memory.
pub open spec fn tensor_lies_inside(mem: Seq<u8>, at: int) -> bool {
    &&& at + 20 <= mem.len()
    &&& crate::memory::u32_at(mem, at) + 4 * crate::memory::u32_at(mem, at + 4) <= mem.len()
    &&& crate::memory::u32_at(mem, at + 12) + crate::memory::u32_at(mem, at + 16) <= mem.len()
}

/// `tensor` is what the record at `at` describes: as many dimensions as it says,
/// each in its place, the element type of its tag, and as many bytes as it says,
/// each in its place.
pub open spec fn tensor_lies_at(mem: Seq<u8>, at: int, tensor: TensorView) -> bool {
    let dimensions_ptr = crate::memory::u32_at(mem, at) as int;
    let data_ptr = crate::memory::u32_at(mem, at + 12) as int;
    &&& tensor.dimensions.len() == crate::memory::u32_at(mem, at + 4)
    &&& forall|k: int|
        0 <= k < tensor.dimensions.len() ==> #[trigger] tensor.dimensions[k] == crate::memory::u32_at(
            mem,
            dimensions_ptr + 4 * k,
        )
    &&& tensor.ty.tag() == mem[at + 8]
    &&& tensor.data.len() == crate::memory::u32_at(mem, at + 16)
    &&& forall|k: int| 0 <= k < tensor.data.len() ==> #[trigger] tensor.data[k] == mem[data_ptr + k]
}

/// What there is to read of a tensor at an offset.
proof fn lemma_tensor_at(mem: Seq<u8>, tensor_ptr: u32)
    ensures
        ({
            let at = tensor_ptr as int;
            let tensor = super::set_input::tensor_at(mem, tensor_ptr);
            if at + 20 > mem.len() {
                tensor == Err::<TensorView, NnErrno>(NnErrno::MissingMemory)
            } else if mem[at + 8] > 5 {
                tensor == Err::<TensorView, NnErrno>(NnErrno::InvalidArgument)
            } else if !tensor_lies_inside(mem, at) {
                tensor == Err::<TensorView, NnErrno>(NnErrno::MissingMemory)
            } else {
                tensor is Ok && tensor_lies_at(mem, at, tensor->Ok_0)
            }
        }),
{
}

/// A tensor is read exactly where its record and the two lists lie inside guest
/// memory and its tag is known. It has the dimensions and the bytes that lie there,
/// in their order.
pub proof fn law_a_tensor_is_read_in_place(
    memory: &GuestMemory,
    tensor_ptr: u32,
    result: Result<Tensor, NnErrno>,
)
    requires
        call_ensures(super::set_input::read_tensor, (memory, tensor_ptr), result),
    ensures
        ({
            let at = tensor_ptr as int;
            if at + 20 > memory@.len() {
                result == Err::<Tensor, NnErrno>(NnErrno::MissingMemory)
            } else if memory@[at + 8] > 5 {
                result == Err::<Tensor, NnErrno>(NnErrno::InvalidArgument)
            } else if !tensor_lies_inside(memory@, at) {
                result == Err::<Tensor, NnErrno>(NnErrno::MissingMemory)
            } else {
                &&& result is Ok
                &&& tensor_lies_at(
                    memory@,
                    at,
                    TensorView {
                        dimensions: result->Ok_0.dimensions@,
                        ty: result->Ok_0.ty,
                        data: result->Ok_0.data@,
                    },
                )
            }
        }),
{
    lemma_tensor_at(memory@, tensor_ptr);
}

/// `set_input` hands the context exactly the tensor that lies in guest memory, with
/// the index that was asked for, and answers what the context answers. No other
/// context and no graph changes.
pub proof fn law_set_input_hands_on_the_tensor<B: NnBackend>(
    env: &mut WasiEnv<B>,
    memory: &GuestMemory,
    context: u32,
    index: u32,
    tensor_ptr: u32,
    code: u32,
)
    requires
        call_ensures(
            super::set_input::nn_set_input::<B>,
            (env, memory, context, index, tensor_ptr),
            code,
        ),
    ensures
        keeps_the_rest(*old(env), *final(env)),
        ({
            let at = tensor_ptr as int;
            let before = old(env).state.nn@;
            let after = final(env).state.nn@;
            if !old(env).capabilities.nn.allow {
                code == 6 && after == before
            } else if at + 20 > memory@.len() {
                code == 3 && after == before
            } else if memory@[at + 8] > 5 {
                code == 1 && after == before
            } else if !tensor_lies_inside(memory@, at) {
                code == 3 && after == before
            } else if !before.contexts.contains_key(context) {
                code == 8 && after == before
            } else {
                exists|tensor: TensorView, changed: <B::Graph as NnGraph>::Context, result: Result<(), NnErrno>|
                    {
                        &&& tensor_lies_at(memory@, at, tensor)
                        &&& #[trigger] <B::Graph as NnGraph>::Context::set_input_outcome(
                            before.contexts[context],
                            index,
                            tensor,
                            changed,
                            result,
                        )
                        &&& one_context_changed(before, context, changed, after)
                        &&& answers(code, result)
                    }
            }
        }),
{
    lemma_tensor_at(memory@, tensor_ptr);
    let before = old(env).state.nn@;
    let after = final(env).state.nn@;
    let tensor = super::set_input::tensor_at(memory@, tensor_ptr);
    if old(env).capabilities.nn.allow && tensor is Ok && before.contexts.contains_key(context) {
        let (changed, result) = choose|
            changed: <B::Graph as NnGraph>::Context,
            result: Result<(), NnErrno>,
        |
            {
                &&& #[trigger] <B::Graph as NnGraph>::Context::set_input_outcome(
                    before.contexts[context],
                    index,
                    tensor->Ok_0,
                    changed,
                    result,
                )
                &&& after == before.with_context(context, changed)
                &&& code == crate::types::nn_return(result)
            };
        assert(after.contexts.dom() =~= before.contexts.dom());
        assert(one_context_changed(before, context, changed, after));
        assert(answers(code, result));
    }
}

/// `compute` runs the context that was asked for and answers what it answers. No
/// other context and no graph changes.
pub proof fn law_compute_runs_one_context<B: NnBackend>(env: &mut WasiEnv<B>, context: u32, code: u32)
    requires
        call_ensures(super::compute::nn_compute::<B>, (env, context), code),
    ensures
        keeps_the_rest(*old(env), *final(env)),
        ({
            let before = old(env).state.nn@;
            let after = final(env).state.nn@;
            if !old(env).capabilities.nn.allow {
                code == 6 && after == before
            } else if !before.contexts.contains_key(context) {
                code == 8 && after == before
            } else {
                exists|changed: <B::Graph as NnGraph>::Context, result: Result<(), NnErrno>|
                    {
                        &&& #[trigger] <B::Graph as NnGraph>::Context::compute_outcome(
                            before.contexts[context],
                            changed,
                            result,
                        )
                        &&& one_context_changed(before, context, changed, after)
                        &&& answers(code, result)
                    }
            }
        }),
{
    let before = old(env).state.nn@;
    let after = final(env).state.nn@;
    if old(env).capabilities.nn.allow && before.contexts.contains_key(context) {
        let (changed, result) = choose|
            changed: <B::Graph as NnGraph>::Context,
            result: Result<(), NnErrno>,
        |
            {
                &&& #[trigger] <B::Graph as NnGraph>::Context::compute_outcome(
                    before.contexts[context],
                    changed,
                    result,
                )
                &&& after == before.with_context(context, changed)
                &&& code == crate::types::nn_return(result)
            };
        assert(after.contexts.dom() =~= before.contexts.dom());
        assert(one_context_changed(before, context, changed, after));
        assert(answers(code, result));
    }
}

/// What becomes of guest memory when a context gave `output`, and the code that the
/// guest sees. The bytes are written where they fit into the buffer and the memory,
/// and their number behind them; no other byte changes.
pub open spec fn hands_out(
    mem: Seq<u8>,
    output: Result<Seq<u8>, NnErrno>,
    out_buffer: int,
    max: int,
    count_out: int,
    after: Seq<u8>,
    code: u32,
) -> bool {
    match output {
        Err(errno) => code == errno.code() && after == mem,
        Ok(bytes) => if bytes.len() > max {
            code == 7 && after == mem
        } else if out_buffer + bytes.len() > mem.len() {
            code == 3 && after == mem
        } else {
            let counted = count_out + 4 <= mem.len();
            &&& code == (if counted {
                0u32
            } else {
                3
            })
            &&& after.len() == mem.len()
            &&& counted ==> crate::memory::u32_at(after, count_out) == bytes.len()
            &&& forall|k: int|
                0 <= k < mem.len() && !(counted && count_out <= k < count_out + 4) ==> #[trigger] after[k] == (
                if out_buffer <= k < out_buffer + bytes.len() {
                    bytes[k - out_buffer]
                } else {
                    mem[k]
                })
        },
    }
}

/// What is delivered of an output.
proof fn lemma_hands_out(
    mem: Seq<u8>,
    output: Result<Seq<u8>, NnErrno>,
    out_buffer: u32,
    max: u32,
    count_out: u32,
    code: u32,
)
    requires
        code == crate::types::nn_return(
            super::get_output::output_delivered(mem, output, out_buffer, max, count_out).1,
        ),
    ensures
        hands_out(
            mem,
            output,
            out_buffer as int,
            max as int,
            count_out as int,
            super::get_output::output_delivered(mem, output, out_buffer, max, count_out).0,
            code,
        ),
{
    if let Ok(bytes) = output {
        if bytes.len() <= max {
            if let Some(filled) = crate::memory::bytes_written(mem, out_buffer, bytes) {
                crate::memory::law_a_written_integer_is_the_difference(
                    filled,
                    count_out,
                    bytes.len() as u32,
                );
            }
        }
    }
}

/// `get_output` hands out the bytes that the context gives for the index that was
/// asked for, in full and with their number, or none of them.
pub proof fn law_get_output_hands_out_the_bytes<B: NnBackend>(
    env: &WasiEnv<B>,
    memory: &mut GuestMemory,
    context: u32,
    index: u32,
    out_buffer: u32,
    out_buffer_max_size: u32,
    bytes_written_out: u32,
    code: u32,
)
    requires
        call_ensures(
            super::get_output::nn_get_output::<B>,
            (env, memory, context, index, out_buffer, out_buffer_max_size, bytes_written_out),
            code,
        ),
    ensures
        if !env.capabilities.nn.allow {
            code == 6 && final(memory)@ == old(memory)@
        } else if !env.state.nn@.contexts.contains_key(context) {
            code == 8 && final(memory)@ == old(memory)@
        } else {
            exists|output: Result<Seq<u8>, NnErrno>|
                {
                    &&& #[trigger] env.state.nn@.contexts[context].get_output_outcome(index, output)
                    &&& hands_out(
                        old(memory)@,
                        output,
                        out_buffer as int,
                        out_buffer_max_size as int,
                        bytes_written_out as int,
                        final(memory)@,
                        code,
                    )
                }
        },
{
    if env.capabilities.nn.allow && env.state.nn@.contexts.contains_key(context) {
        let output = choose|output: Result<Seq<u8>, NnErrno>|
            {
                let delivered = super::get_output::output_delivered(
                    old(memory)@,
                    output,
                    out_buffer,
                    out_buffer_max_size,
                    bytes_written_out,
                );
                &&& #[trigger] env.state.nn@.contexts[context].get_output_outcome(index, output)
                &&& final(memory)@ == delivered.0
                &&& code == crate::types::nn_return(delivered.1)
            };
        lemma_hands_out(
            old(memory)@,
            output,
            out_buffer,
            out_buffer_max_size,
            bytes_written_out,
            code,
        );
    }
}

/// What becomes of guest memory when the handle `handle` was issued, and the code
/// that the guest sees: it is written where there is room for it.
pub open spec fn handle_handed_out(mem: Seq<u8>, out: int, handle: u32, after: Seq<u8>, code: u32) -> bool {
    if out + 4 <= mem.len() {
        code == 0 && crate::memory::differs_by_integer(mem, after, out, handle)
    } else {
        code == 3 && after == mem
    }
}

/// What becomes of the tables and of guest memory when the engine answered
/// `loaded`, and the code that the guest sees: a graph stands under the handle
/// behind the last, and nothing else in the tables changes.
pub open spec fn graph_handed_out<G, C>(
    before: NnView<G, C>,
    mem: Seq<u8>,
    loaded: Result<G, NnErrno>,
    out: int,
    after: NnView<G, C>,
    mem_after: Seq<u8>,
    code: u32,
) -> bool {
    match loaded {
        Err(errno) => code == errno.code() && after == before && mem_after == mem,
        Ok(graph) => if before.issued == u32::MAX {
            code == 7 && after == before && mem_after == mem
        } else {
            let handle = (before.issued + 1) as u32;
            &&& after.issued == handle
            &&& after.graphs == before.graphs.insert(handle, graph)
            &&& after.contexts == before.contexts
            &&& handle_handed_out(mem, out, handle, mem_after, code)
        },
    }
}

/// What becomes of the tables and of guest memory when a graph answered `made`, and
/// the code that the guest sees: a context stands under the handle behind the last,
/// and nothing else in the tables changes.
pub open spec fn context_handed_out<G, C>(
    before: NnView<G, C>,
    mem: Seq<u8>,
    made: Result<C, NnErrno>,
    out: int,
    after: NnView<G, C>,
    mem_after: Seq<u8>,
    code: u32,
) -> bool {
    match made {
        Err(errno) => code == errno.code() && after == before && mem_after == mem,
        Ok(context) => if before.issued == u32::MAX {
            code == 7 && after == before && mem_after == mem
        } else {
            let handle = (before.issued + 1) as u32;
            &&& after.issued == handle
            &&& after.contexts == before.contexts.insert(handle, context)
            &&& after.graphs == before.graphs
            &&& handle_handed_out(mem, out, handle, mem_after, code)
        },
    }
}

/// What is delivered of a graph.
proof fn lemma_graph_handed_out<G, C>(
    before: NnView<G, C>,
    mem: Seq<u8>,
    loaded: Result<G, NnErrno>,
    graph_out: u32,
    code: u32,
)
    requires
        code == crate::types::nn_return(super::load::graph_delivered(before, mem, loaded, graph_out).2),
    ensures
        ({
            let (after, mem_after, _) = super::load::graph_delivered(before, mem, loaded, graph_out);
            graph_handed_out(before, mem, loaded, graph_out as int, after, mem_after, code)
        }),
{
    crate::memory::law_a_written_integer_is_the_difference(mem, graph_out, (before.issued + 1) as u32);
}

/// A graph that an engine gave is registered and its handle handed out.
pub proof fn law_a_given_graph_is_registered<G, C>(
    nn: &mut NnState<G, C>,
    memory: &mut GuestMemory,
    loaded: Result<G, NnErrno>,
    graph_out: u32,
    result: Result<(), NnErrno>,
)
    requires
        call_ensures(super::load::deliver_graph::<G, C>, (nn, memory, loaded, graph_out), result),
    ensures
        exists|code: u32| #[trigger]
            answers(code, result) && graph_handed_out(
                old(nn)@,
                old(memory)@,
                loaded,
                graph_out as int,
                final(nn)@,
                final(memory)@,
                code,
            ),
{
    let code = crate::types::nn_return(result);
    lemma_graph_handed_out(old(nn)@, old(memory)@, loaded, graph_out, code);
    assert(answers(code, result));
}

/// `init_execution_context` registers the context that the graph gives and hands
/// its handle out.
pub proof fn law_init_registers_the_context<B: NnBackend>(
    env: &mut WasiEnv<B>,
    memory: &mut GuestMemory,
    graph: u32,
    context_out: u32,
    code: u32,
)
    requires
        call_ensures(
            super::init_execution_context::nn_init_execution_context::<B>,
            (env, memory, graph, context_out),
            code,
        ),
    ensures
        keeps_the_rest(*old(env), *final(env)),
        ({
            let before = old(env).state.nn@;
            let after = final(env).state.nn@;
            if !old(env).capabilities.nn.allow {
                code == 6 && after == before && final(memory)@ == old(memory)@
            } else if !before.graphs.contains_key(graph) {
                code == 8 && after == before && final(memory)@ == old(memory)@
            } else {
                exists|made: Result<<B::Graph as NnGraph>::Context, NnErrno>|
                    {
                        &&& #[trigger] before.graphs[graph].init_outcome(made)
                        &&& context_handed_out(
                            before,
                            old(memory)@,
                            made,
                            context_out as int,
                            after,
                            final(memory)@,
                            code,
                        )
                    }
            }
        }),
{
    let before = old(env).state.nn@;
    crate::memory::law_a_written_integer_is_the_difference(
        old(memory)@,
        context_out,
        (before.issued + 1) as u32,
    );
    if old(env).capabilities.nn.allow && before.graphs.contains_key(graph) {
        let made = choose|made: Result<<B::Graph as NnGraph>::Context, NnErrno>|
            {
                let delivered = super::init_execution_context::context_delivered(
                    before,
                    old(memory)@,
                    made,
                    context_out,
                );
                &&& #[trigger] before.graphs[graph].init_outcome(made)
                &&& final(env).state.nn@ == delivered.0
                &&& final(memory)@ == delivered.1
                &&& code == crate::types::nn_return(delivered.2)
            };
        assert(context_handed_out(
            before,
            old(memory)@,
            made,
            context_out as int,
            final(env).state.nn@,
            final(memory)@,
            code,
        ));
    }
}

/// The `len` records at `at` and the blobs that they point to lie inside the
/// memory.
pub open spec fn blobs_lie_inside(mem: Seq<u8>, at: int, len: int) -> bool {
    &&& at + 8 * len <= mem.len()
    &&& forall|i: int|
        0 <= i < len ==> #[trigger] crate::memory::u32_at(mem, at + 8 * i) + crate::memory::u32_at(
            mem,
            at + 8 * i + 4,
        ) <= mem.len()
}

/// `blobs` are what the `len` records at `at` point to, in their order: each has as
/// many bytes as its record says, each byte in its place.
pub open spec fn blobs_lie_at(mem: Seq<u8>, at: int, len: int, blobs: Seq<Seq<u8>>) -> bool {
    &&& blobs.len() == len
    &&& forall|i: int|
        0 <= i < len ==> (#[trigger] blobs[i]).len() == crate::memory::u32_at(mem, at + 8 * i + 4)
    &&& forall|i: int, k: int|
        0 <= i < len && 0 <= k < blobs[i].len() ==> #[trigger] blobs[i][k] == mem[crate::memory::u32_at(
            mem,
            at + 8 * i,
        ) + k]
}

/// The bytes of several lists of blobs add up, and one blob has its own.
pub proof fn law_blob_sizes_add_up(first: Seq<Seq<u8>>, second: Seq<Seq<u8>>, blob: Seq<u8>)
    ensures
        super::load::total_len(first + second) == super::load::total_len(first) + super::load::total_len(
            second,
        ),
        super::load::total_len(seq![blob]) == blob.len(),
        super::load::total_len(Seq::empty()) == 0,
    decreases second.len(),
{
    assert(seq![blob].drop_last() == Seq::<Seq<u8>>::empty());
    assert(super::load::total_len(seq![blob].drop_last()) == 0);
    if second.len() == 0 {
        assert(first + second == first);
    } else {
        assert((first + second).drop_last() == first + second.drop_last());
        law_blob_sizes_add_up(first, second.drop_last(), blob);
    }
}

/// What there is to read of blobs at an offset.
proof fn lemma_blobs_at(mem: Seq<u8>, builder_ptr: u32, builder_len: u32)
    ensures
        ({
            let blobs = super::load::blobs_at(mem, builder_ptr, builder_len);
            &&& blobs is Some <==> blobs_lie_inside(mem, builder_ptr as int, builder_len as int)
            &&& blobs is Some ==> blobs_lie_at(mem, builder_ptr as int, builder_len as int, blobs->0)
        }),
{
    let at = builder_ptr as int;
    if at + 8 * builder_len <= mem.len() {
        let builders = super::types::builders_at(mem, builder_ptr, builder_len)->0;
        assert forall|i: int| 0 <= i < builder_len implies {
            &&& (#[trigger] builders[i]).ptr == crate::memory::u32_at(mem, at + 8 * i)
            &&& builders[i].len == crate::memory::u32_at(mem, at + 8 * i + 4)
        } by {}
        if blobs_lie_inside(mem, at, builder_len as int) {
            assert forall|i: int| 0 <= i < builders.len() implies crate::memory::bytes_read(
                mem,
                (#[trigger] builders[i]).ptr,
                builders[i].len,
            ) is Some by {
                assert(crate::memory::u32_at(mem, at + 8 * i) + crate::memory::u32_at(mem, at + 8 * i + 4)
                    <= mem.len());
            }
        }
        if super::load::blobs_of(mem, builders) is Some {
            assert forall|i: int| 0 <= i < builder_len implies #[trigger] crate::memory::u32_at(
                mem,
                at + 8 * i,
            ) + crate::memory::u32_at(mem, at + 8 * i + 4) <= mem.len() by {
                assert(crate::memory::bytes_read(mem, builders[i].ptr, builders[i].len) is Some);
            }
        }
    }
}

/// A request is accepted, or refused with this errno. The namespace has to be
/// allowed; then the tags have to be known, the GPU has to be allowed if it is the
/// target, the blobs have to lie in guest memory, and they must not be larger than
/// the embedder permits. What is accepted is what the guest asked for.
pub open spec fn request_answered(
    capability: CapabilityNnV1,
    mem: Seq<u8>,
    builder_ptr: u32,
    builder_len: u32,
    encoding: u32,
    target: u32,
    answer: Result<LoadRequestView, NnErrno>,
) -> bool {
    if !capability.allow {
        answer == Err::<LoadRequestView, NnErrno>(NnErrno::UnsupportedOperation)
    } else if encoding > 5 || target > 2 {
        answer == Err::<LoadRequestView, NnErrno>(NnErrno::InvalidArgument)
    } else if target == 1 && !capability.allow_gpu {
        answer == Err::<LoadRequestView, NnErrno>(NnErrno::UnsupportedOperation)
    } else if !blobs_lie_inside(mem, builder_ptr as int, builder_len as int) {
        answer == Err::<LoadRequestView, NnErrno>(NnErrno::MissingMemory)
    } else {
        exists|blobs: Seq<Seq<u8>>| #[trigger]
            blobs_lie_at(mem, builder_ptr as int, builder_len as int, blobs) && if capability.max_model_bytes is Some
                && super::load::total_len(blobs) > capability.max_model_bytes->0 {
                answer == Err::<LoadRequestView, NnErrno>(NnErrno::TooLarge)
            } else {
                &&& answer is Ok
                &&& answer->Ok_0.blobs == blobs
                &&& answer->Ok_0.encoding.tag() == encoding
                &&& answer->Ok_0.target.tag() == target
            }
    }
}

/// What a call of `load` asks the engine for.
proof fn lemma_request_answered(
    capability: CapabilityNnV1,
    mem: Seq<u8>,
    builder_ptr: u32,
    builder_len: u32,
    encoding: u32,
    target: u32,
)
    ensures
        request_answered(
            capability,
            mem,
            builder_ptr,
            builder_len,
            encoding,
            target,
            super::load::load_request_of(capability, mem, builder_ptr, builder_len, encoding, target),
        ),
{
    lemma_blobs_at(mem, builder_ptr, builder_len);
    if blobs_lie_inside(mem, builder_ptr as int, builder_len as int) {
        let blobs = super::load::blobs_at(mem, builder_ptr, builder_len)->0;
        assert(blobs_lie_at(mem, builder_ptr as int, builder_len as int, blobs));
    }
}

/// A call of `load` is checked as it should be, and the engine is asked for what
/// the guest asked for: the blobs that lie in guest memory, in their order.
pub proof fn law_a_request_asks_for_what_the_guest_asks(
    capability: &CapabilityNnV1,
    memory: &GuestMemory,
    builder_ptr: u32,
    builder_len: u32,
    encoding: u32,
    target: u32,
    result: Result<LoadRequest, NnErrno>,
)
    requires
        call_ensures(
            super::load::load_request,
            (capability, memory, builder_ptr, builder_len, encoding, target),
            result,
        ),
    ensures
        request_answered(
            *capability,
            memory@,
            builder_ptr,
            builder_len,
            encoding,
            target,
            match result {
                Ok(request) => Ok(
                    LoadRequestView {
                        blobs: Seq::new(request.blobs@.len(), |i: int| request.blobs@[i]@),
                        encoding: request.encoding,
                        target: request.target,
                    },
                ),
                Err(errno) => Err(errno),
            },
        ),
{
    lemma_request_answered(*capability, memory@, builder_ptr, builder_len, encoding, target);
    if let Ok(request) = result {
        assert(Seq::new(request.blobs@.len(), |i: int| request.blobs@[i]@) =~= request@.blobs);
    }
}

/// `load` refuses what it should without changing anything, and otherwise asks the
/// engine for what the guest asked for, registers the graph that it gives and hands
/// its handle out.
pub proof fn law_load_registers_the_graph<B: NnBackend>(
    env: &mut WasiEnv<B>,
    memory: &mut GuestMemory,
    builder_ptr: u32,
    builder_len: u32,
    encoding: u32,
    target: u32,
    graph_out: u32,
    code: u32,
)
    requires
        call_ensures(
            super::load::nn_load::<B>,
            (env, memory, builder_ptr, builder_len, encoding, target, graph_out),
            code,
        ),
    ensures
        keeps_the_rest(*old(env), *final(env)),
        exists|answer: Result<LoadRequestView, NnErrno>|
            {
                &&& #[trigger] request_answered(
                    old(env).capabilities.nn,
                    old(memory)@,
                    builder_ptr,
                    builder_len,
                    encoding,
                    target,
                    answer,
                )
                &&& match answer {
                    Err(errno) => {
                        &&& code == errno.code()
                        &&& final(env).state.nn@ == old(env).state.nn@
                        &&& final(memory)@ == old(memory)@
                    },
                    Ok(request) => exists|loaded: Result<B::Graph, NnErrno>|
                        {
                            &&& #[trigger] old(env).state.nn_backend.load_outcome(
                                request.blobs,
                                request.encoding,
                                request.target,
                                loaded,
                            )
                            &&& graph_handed_out(
                                old(env).state.nn@,
                                old(memory)@,
                                loaded,
                                graph_out as int,
                                final(env).state.nn@,
                                final(memory)@,
                                code,
                            )
                        },
                }
            },
{
    let capability = old(env).capabilities.nn;
    let answer = super::load::load_request_of(
        capability,
        old(memory)@,
        builder_ptr,
        builder_len,
        encoding,
        target,
    );
    lemma_request_answered(capability, old(memory)@, builder_ptr, builder_len, encoding, target);
    if let Ok(request) = answer {
        let loaded = choose|loaded: Result<B::Graph, NnErrno>|
            {
                let delivered = super::load::graph_delivered(
                    old(env).state.nn@,
                    old(memory)@,
                    loaded,
                    graph_out,
                );
                &&& #[trigger] old(env).state.nn_backend.load_outcome(
                    request.blobs,
                    request.encoding,
                    request.target,
                    loaded,
                )
                &&& final(env).state.nn@ == delivered.0
                &&& final(memory)@ == delivered.1
                &&& code == crate::types::nn_return(delivered.2)
            };
        lemma_graph_handed_out(old(env).state.nn@, old(memory)@, loaded, graph_out, code);
    }
}

/// `load_by_name` asks the engine with exactly the name that the bytes in guest
/// memory encode, registers the graph that it gives and hands its handle out. A
/// name that does not lie in guest memory, or is no text, is refused.
pub proof fn law_load_by_name_asks_with_the_name<B: NnBackend>(
    env: &mut WasiEnv<B>,
    memory: &mut GuestMemory,
    name_ptr: u32,
    name_len: u32,
    graph_out: u32,
    code: u32,
)
    requires
        call_ensures(
            super::load_by_name::nn_load_by_name::<B>,
            (env, memory, name_ptr, name_len, graph_out),
            code,
        ),
    ensures
        keeps_the_rest(*old(env), *final(env)),
        ({
            let before = old(env).state.nn@;
            let after = final(env).state.nn@;
            let mem = old(memory)@;
            let name = mem.subrange(name_ptr as int, name_ptr + name_len);
            if !old(env).capabilities.nn.allow {
                code == 6 && after == before && final(memory)@ == mem
            } else if name_ptr + name_len > mem.len() {
                code == 3 && after == before && final(memory)@ == mem
            } else if !vstd::utf8::valid_utf8(name) {
                code == 1 && after == before && final(memory)@ == mem
            } else {
                exists|asked: &str, loaded: Result<B::Graph, NnErrno>|
                    {
                        &&& asked@ == vstd::utf8::decode_utf8(name)
                        &&& #[trigger] call_ensures(
                            B::load_by_name,
                            (&old(env).state.nn_backend, asked),
                            loaded,
                        )
                        &&& graph_handed_out(
                            before,
                            mem,
                            loaded,
                            graph_out as int,
                            after,
                            final(memory)@,
                            code,
                        )
                    }
            }
        }),
{
    let before = old(env).state.nn@;
    let mem = old(memory)@;
    let name = super::load_by_name::name_of(old(env).capabilities.nn, mem, name_ptr, name_len);
    if let Ok(name) = name {
        let (asked, loaded) = choose|asked: &str, loaded: Result<B::Graph, NnErrno>|
            {
                let delivered = super::load::graph_delivered(before, mem, loaded, graph_out);
                &&& asked@ == name
                &&& #[trigger] call_ensures(
                    B::load_by_name,
                    (&old(env).state.nn_backend, asked),
                    loaded,
                )
                &&& final(env).state.nn@ == delivered.0
                &&& final(memory)@ == delivered.1
                &&& code == crate::types::nn_return(delivered.2)
            };
        lemma_graph_handed_out(before, mem, loaded, graph_out, code);
    }
}

/// A tensor record is read exactly where its twenty bytes lie inside guest memory,
/// and each field from its place.
pub proof fn law_a_tensor_record_is_read_in_place(
    memory: &GuestMemory,
    at: u32,
    result: Result<WasmTensor, OutOfBounds>,
)
    requires
        call_ensures(super::types::read_tensor_record, (memory, at), result),
    ensures
        result is Ok <==> at + 20 <= memory@.len(),
        result is Ok ==> {
            let record = result->Ok_0;
            &&& record.dimensions_ptr == crate::memory::u32_at(memory@, at as int)
            &&& record.dimensions_len == crate::memory::u32_at(memory@, at + 4)
            &&& record.ty == memory@[at + 8]
            &&& record.data_ptr == crate::memory::u32_at(memory@, at + 12)
            &&& record.data_len == crate::memory::u32_at(memory@, at + 16)
        },
{
}

/// Builder records are read exactly where all of them lie inside guest memory, eight
/// bytes apart, and each field from its place.
pub proof fn law_builder_records_are_read_in_place(
    memory: &GuestMemory,
    at: u32,
    len: u32,
    result: Result<Vec<WasmGraphBuilder>, OutOfBounds>,
)
    requires
        call_ensures(super::types::read_builders, (memory, at, len), result),
    ensures
        result is Ok <==> at + 8 * len <= memory@.len(),
        result is Ok ==> {
            &&& result->Ok_0@.len() == len
            &&& forall|i: int|
                0 <= i < len ==> {
                    &&& (#[trigger] result->Ok_0@[i]).ptr == crate::memory::u32_at(memory@, at + 8 * i)
                    &&& result->Ok_0@[i].len == crate::memory::u32_at(memory@, at + 8 * i + 4)
                }
        },
{
}

/// The blobs of a model are read exactly where they and their records lie inside guest
/// memory, each byte from its place.
pub proof fn law_blobs_are_read_in_place(
    memory: &GuestMemory,
    builder_ptr: u32,
    builder_len: u32,
    result: Result<Vec<Vec<u8>>, NnErrno>,
)
    requires
        call_ensures(super::load::read_blobs, (memory, builder_ptr, builder_len), result),
    ensures
        result is Ok <==> blobs_lie_inside(memory@, builder_ptr as int, builder_len as int),
        result is Err ==> result->Err_0 == NnErrno::MissingMemory,
        result is Ok ==> blobs_lie_at(
            memory@,
            builder_ptr as int,
            builder_len as int,
            Seq::new(result->Ok_0@.len(), |i: int| result->Ok_0@[i]@),
        ),
{
    lemma_blobs_at(memory@, builder_ptr, builder_len);
    if result is Ok {
        assert(Seq::new(result->Ok_0@.len(), |i: int| result->Ok_0@[i]@) =~= crate::backend::blob_views(
            result->Ok_0@,
        ));
    }
}

/// A name is taken exactly where the namespace is allowed and the bytes lie in guest
/// memory and are text: it is the text that they encode.
pub proof fn law_a_name_is_the_text_in_memory(
    capability: &CapabilityNnV1,
    memory: &GuestMemory,
    name_ptr: u32,
    name_len: u32,
    result: Result<String, NnErrno>,
)
    requires
        call_ensures(
            super::load_by_name::requested_name,
            (capability, memory, name_ptr, name_len),
            result,
        ),
    ensures
        ({
            let bytes = memory@.subrange(name_ptr as int, name_ptr + name_len);
            if !capability.allow {
                result is Err && result->Err_0 == NnErrno::UnsupportedOperation
            } else if name_ptr + name_len > memory@.len() {
                result is Err && result->Err_0 == NnErrno::MissingMemory
            } else if !vstd::utf8::valid_utf8(bytes) {
                result is Err && result->Err_0 == NnErrno::InvalidArgument
            } else {
                result is Ok && result->Ok_0@ == vstd::utf8::decode_utf8(bytes)
            }
        }),
{
}

/// A context that a graph gave is registered and its handle handed out.
pub proof fn law_a_given_context_is_registered<G, C>(
    nn: &mut NnState<G, C>,
    memory: &mut GuestMemory,
    made: Result<C, NnErrno>,
    context_out: u32,
    result: Result<(), NnErrno>,
)
    requires
        call_ensures(
            super::init_execution_context::deliver_context::<G, C>,
            (nn, memory, made, context_out),
            result,
        ),
    ensures
        exists|code: u32| #[trigger]
            answers(code, result) && context_handed_out(
                old(nn)@,
                old(memory)@,
                made,
                context_out as int,
                final(nn)@,
                final(memory)@,
                code,
            ),
{
    let code = crate::types::nn_return(result);
    crate::memory::law_a_written_integer_is_the_difference(
        old(memory)@,
        context_out,
        (old(nn)@.issued + 1) as u32,
    );
    assert(answers(code, result));
}

/// An output that a context gave is handed out.
pub proof fn law_a_given_output_is_handed_out(
    memory: &mut GuestMemory,
    output: Result<Vec<u8>, NnErrno>,
    out_buffer: u32,
    out_buffer_max_size: u32,
    bytes_written_out: u32,
    result: Result<(), NnErrno>,
)
    requires
        call_ensures(
            super::get_output::deliver_output,
            (memory, output, out_buffer, out_buffer_max_size, bytes_written_out),
            result,
        ),
    ensures
        exists|code: u32| #[trigger]
            answers(code, result) && hands_out(
                old(memory)@,
                match output {
                    Ok(bytes) => Ok(bytes@),
                    Err(errno) => Err(errno),
                },
                out_buffer as int,
                out_buffer_max_size as int,
                bytes_written_out as int,
                final(memory)@,
                code,
            ),
{
    let code = crate::types::nn_return(result);
    lemma_hands_out(
        old(memory)@,
        crate::backend::bytes_outcome(output),
        out_buffer,
        out_buffer_max_size,
        bytes_written_out,
        code,
    );
    assert(answers(code, result));
}

} // verus!
