//! Loading a graph for a guest once its configuration was decoded.

use vstd::prelude::*;

use super::backend::{CandleBackend, LayerStackGraph, ModelConfig};
use super::run::LayerStackExecutionContext;
use crate::memory::GuestMemory;
use crate::state::nn::NnState;
use crate::syscalls::wasi_nn::load::{deliver_graph, LoadRequest};
use crate::types::NnErrno;

verus! {

/// Loads the graph that `request` asks for and hands its handle to the guest at
/// `graph_out`. `config` is what the first blob of the request decodes to, if it
/// does.
pub fn load_decoded(
    nn: &mut NnState<LayerStackGraph, LayerStackExecutionContext>,
    memory: &mut GuestMemory,
    request: &LoadRequest,
    config: Option<ModelConfig>,
    graph_out: u32,
) -> (result: Result<(), NnErrno>)
    ensures
        match super::backend::loaded(
            request@.blobs,
            request@.encoding,
            request@.target,
            match config {
                Some(config) => Some(config@),
                None => None,
            },
        ) {
            Err(errno) => {
                &&& result == Err::<(), NnErrno>(errno)
                &&& final(nn)@ == old(nn)@
                &&& final(memory)@ == old(memory)@
            },
            Ok(layers) => exists|graph: LayerStackGraph|
                {
                    &&& graph@ == layers
                    &&& (final(nn)@, final(memory)@, result)
                        == #[trigger] crate::syscalls::wasi_nn::load::graph_delivered(
                        old(nn)@,
                        old(memory)@,
                        Ok(graph),
                        graph_out,
                    )
                },
        },
        old(nn)@.wf() ==> final(nn)@.wf(),
{
    let loaded = CandleBackend::new().load(
        request.blobs.as_slice(),
        request.encoding,
        request.target,
        config,
    );
    deliver_graph(nn, memory, loaded, graph_out)
}

} // verus!
