//! What holds of the `wasi_ephemeral_nn` functions together.

use vstd::prelude::*;

use crate::env::CapabilityNnV1;
use crate::state::nn::NnView;
use crate::types::{ExecutionTarget, NnErrno};

verus! {

/// Where the embedder does not allow the namespace, the engine is asked for no
/// graph.
pub proof fn law_denied_guests_load_nothing(
    capability: CapabilityNnV1,
    mem: Seq<u8>,
    ptr: u32,
    len: u32,
    encoding: u32,
    target: u32,
)
    requires
        !capability.allow,
    ensures
        super::load::load_request_of(capability, mem, ptr, len, encoding, target) == Err::<
            super::load::LoadRequestView,
            NnErrno,
        >(NnErrno::UnsupportedOperation),
        super::load_by_name::name_of(capability, mem, ptr, len) == Err::<Seq<char>, NnErrno>(
            NnErrno::UnsupportedOperation,
        ),
{
}

/// The engine is asked for a graph on the GPU only where the embedder allows the
/// GPU, and never for a model that is larger than the embedder permits.
pub proof fn law_requests_keep_to_what_is_allowed(
    capability: CapabilityNnV1,
    mem: Seq<u8>,
    builder_ptr: u32,
    builder_len: u32,
    encoding: u32,
    target: u32,
)
    requires
        super::load::load_request_of(capability, mem, builder_ptr, builder_len, encoding, target) is Ok,
    ensures
        ({
            let request = super::load::load_request_of(
                capability,
                mem,
                builder_ptr,
                builder_len,
                encoding,
                target,
            )->Ok_0;
            &&& capability.allow
            &&& request.target == ExecutionTarget::Gpu ==> capability.allow_gpu
            &&& capability.max_model_bytes is Some ==> super::load::total_len(request.blobs)
                <= capability.max_model_bytes->0
            &&& request.blobs.len() == builder_len
        }),
{
}

/// A graph that was delivered is found under the handle that the guest was
/// given, a handle that nothing had before, and every other graph and every
/// context is as it was.
pub proof fn law_a_delivered_graph_is_found<G, C>(
    before: NnView<G, C>,
    mem: Seq<u8>,
    graph: G,
    graph_out: u32,
)
    requires
        before.wf(),
        super::load::graph_delivered(before, mem, Ok(graph), graph_out).2 is Ok,
    ensures
        ({
            let (after, mem_after, _) = super::load::graph_delivered(before, mem, Ok(graph), graph_out);
            let handle = crate::memory::u32_at(mem_after, graph_out as int);
            &&& !before.graphs.contains_key(handle)
            &&& !before.contexts.contains_key(handle)
            &&& after.graphs.contains_key(handle)
            &&& after.graphs[handle] == graph
            &&& after.graphs.remove(handle) == before.graphs
            &&& after.contexts == before.contexts
        }),
{
    let handle = before.next_handle()->Ok_0;
    crate::memory::law_u32_read_after_write(mem, graph_out, handle);
    assert(before.graphs.insert(handle, graph).remove(handle) =~= before.graphs);
}

/// A context that was delivered is found under the handle that the guest was
/// given, a handle that nothing had before, and every other context and every
/// graph is as it was.
pub proof fn law_a_delivered_context_is_found<G, C>(
    before: NnView<G, C>,
    mem: Seq<u8>,
    context: C,
    context_out: u32,
)
    requires
        before.wf(),
        super::init_execution_context::context_delivered(before, mem, Ok(context), context_out).2 is Ok,
    ensures
        ({
            let (after, mem_after, _) = super::init_execution_context::context_delivered(
                before,
                mem,
                Ok(context),
                context_out,
            );
            let handle = crate::memory::u32_at(mem_after, context_out as int);
            &&& !before.graphs.contains_key(handle)
            &&& !before.contexts.contains_key(handle)
            &&& after.contexts.contains_key(handle)
            &&& after.contexts[handle] == context
            &&& after.contexts.remove(handle) == before.contexts
            &&& after.graphs == before.graphs
        }),
{
    let handle = before.next_handle()->Ok_0;
    crate::memory::law_u32_read_after_write(mem, context_out, handle);
    assert(before.contexts.insert(handle, context).remove(handle) =~= before.contexts);
}

/// An error of the engine, or of a graph, comes back to the guest as it is: no
/// handle is issued, and guest memory is left alone.
pub proof fn law_an_engine_error_is_handed_on<G, C>(
    before: NnView<G, C>,
    mem: Seq<u8>,
    errno: NnErrno,
    out: u32,
)
    ensures
        super::load::graph_delivered::<G, C>(before, mem, Err(errno), out) == (
            before,
            mem,
            Err::<(), NnErrno>(errno),
        ),
        super::init_execution_context::context_delivered::<G, C>(before, mem, Err(errno), out) == (
            before,
            mem,
            Err::<(), NnErrno>(errno),
        ),
        crate::types::nn_return(Err(errno)) == errno.code(),
{
}

} // verus!
