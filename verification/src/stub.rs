//! The default engine, for an embedder that has set up none: it rejects every
//! graph, so the host functions always have some engine to call.

use vstd::prelude::*;

use crate::backend::{NnBackend, NnExecutionContext, NnGraph};
use crate::types::{ExecutionTarget, GraphEncoding, NnErrno, Tensor, TensorView};

verus! {

/// An engine that supports nothing.
#[derive(Debug, Default, Clone, Copy)]
pub struct CpuStub;

impl NnBackend for CpuStub {
    type Graph = UnreachableGraph;

    open spec fn load_outcome(
        self,
        builders: Seq<Seq<u8>>,
        encoding: GraphEncoding,
        target: ExecutionTarget,
        result: Result<UnreachableGraph, NnErrno>,
    ) -> bool {
        result == Err::<UnreachableGraph, NnErrno>(NnErrno::UnsupportedOperation)
    }

    open spec fn named_outcome(self, name: Seq<char>, result: Result<UnreachableGraph, NnErrno>) -> bool {
        false
    }

    fn load(
        &self,
        _builders: &[Vec<u8>],
        _encoding: GraphEncoding,
        _target: ExecutionTarget,
    ) -> (result: Result<UnreachableGraph, NnErrno>) {
        Err(NnErrno::UnsupportedOperation)
    }
}

/// The graph type of an engine that loads no graph.
#[derive(Debug)]
pub struct UnreachableGraph;

impl NnGraph for UnreachableGraph {
    type Context = UnreachableContext;

    open spec fn init_outcome(self, result: Result<UnreachableContext, NnErrno>) -> bool {
        result == Err::<UnreachableContext, NnErrno>(NnErrno::UnsupportedOperation)
    }

    fn init_execution_context(&self) -> (result: Result<UnreachableContext, NnErrno>) {
        Err(NnErrno::UnsupportedOperation)
    }
}

/// The context type of a graph that makes no context.
#[derive(Debug)]
pub struct UnreachableContext;

impl NnExecutionContext for UnreachableContext {
    open spec fn set_input_outcome(
        before: UnreachableContext,
        index: u32,
        tensor: TensorView,
        after: UnreachableContext,
        result: Result<(), NnErrno>,
    ) -> bool {
        result == Err::<(), NnErrno>(NnErrno::UnsupportedOperation)
    }

    open spec fn compute_outcome(
        before: UnreachableContext,
        after: UnreachableContext,
        result: Result<(), NnErrno>,
    ) -> bool {
        result == Err::<(), NnErrno>(NnErrno::UnsupportedOperation)
    }

    open spec fn get_output_outcome(self, index: u32, result: Result<Seq<u8>, NnErrno>) -> bool {
        result == Err::<Seq<u8>, NnErrno>(NnErrno::UnsupportedOperation)
    }

    fn set_input(&mut self, _index: u32, _tensor: Tensor) -> (result: Result<(), NnErrno>) {
        Err(NnErrno::UnsupportedOperation)
    }

    fn compute(&mut self) -> (result: Result<(), NnErrno>) {
        Err(NnErrno::UnsupportedOperation)
    }

    fn get_output(&self, _index: u32) -> (result: Result<Vec<u8>, NnErrno>) {
        Err(NnErrno::UnsupportedOperation)
    }
}

/// The stub answers every call with `UnsupportedOperation`, and a name with
/// `NotFound`.
pub proof fn law_the_stub_supports_nothing(
    stub: &CpuStub,
    builders: &[Vec<u8>],
    encoding: GraphEncoding,
    target: ExecutionTarget,
    loaded: Result<UnreachableGraph, NnErrno>,
    name: &str,
    named: Result<UnreachableGraph, NnErrno>,
    graph: &UnreachableGraph,
    made: Result<UnreachableContext, NnErrno>,
)
    requires
        call_ensures(<CpuStub as NnBackend>::load, (stub, builders, encoding, target), loaded),
        call_ensures(<CpuStub as NnBackend>::load_by_name, (stub, name), named),
        call_ensures(<UnreachableGraph as NnGraph>::init_execution_context, (graph,), made),
    ensures
        loaded == Err::<UnreachableGraph, NnErrno>(NnErrno::UnsupportedOperation),
        named == Err::<UnreachableGraph, NnErrno>(NnErrno::NotFound),
        made == Err::<UnreachableContext, NnErrno>(NnErrno::UnsupportedOperation),
{
    assert(stub.load_outcome(crate::backend::blob_views(builders@), encoding, target, loaded));
    assert(graph.init_outcome(made));
}

} // verus!
