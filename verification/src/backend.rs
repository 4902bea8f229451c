//! What an inference engine implements. The host functions know an engine only
//! through these traits, so another one can be put in its place.
//!
//! What an engine answers is its own affair: each trait names, as a relation
//! between a call and its outcome, what an implementation lets happen, and the
//! host functions are specified over those relations. An implementation that
//! says nothing of them may do anything.

use vstd::prelude::*;

use crate::types::{ExecutionTarget, GraphEncoding, NnErrno, Tensor, TensorView};

verus! {

/// What a call that returns bytes came out as.
pub open spec fn bytes_outcome(result: Result<Vec<u8>, NnErrno>) -> Result<Seq<u8>, NnErrno> {
    match result {
        Ok(bytes) => Ok(bytes@),
        Err(errno) => Err(errno),
    }
}

/// The contents of a list of byte blobs.
pub open spec fn blob_views(blobs: Seq<Vec<u8>>) -> Seq<Seq<u8>> {
    blobs.map_values(|blob: Vec<u8>| blob@)
}

/// One inference run, in flight or to be reused, over an [`NnGraph`].
pub trait NnExecutionContext: Sized + Send + Sync {
    /// `set_input` may take `before` to `after` with this result.
    open spec fn set_input_outcome(
        before: Self,
        index: u32,
        tensor: TensorView,
        after: Self,
        result: Result<(), NnErrno>,
    ) -> bool {
        true
    }

    /// `compute` may take `before` to `after` with this result.
    open spec fn compute_outcome(before: Self, after: Self, result: Result<(), NnErrno>) -> bool {
        true
    }

    /// `get_output` may give this result.
    open spec fn get_output_outcome(self, index: u32, result: Result<Seq<u8>, NnErrno>) -> bool {
        true
    }

    fn set_input(&mut self, index: u32, tensor: Tensor) -> (result: Result<(), NnErrno>)
        ensures
            Self::set_input_outcome(*old(self), index, tensor@, *final(self), result),
    ;

    fn compute(&mut self) -> (result: Result<(), NnErrno>)
        ensures
            Self::compute_outcome(*old(self), *final(self), result),
    ;

    /// The raw little-endian bytes of output `index`.
    fn get_output(&self, index: u32) -> (result: Result<Vec<u8>, NnErrno>)
        ensures
            self.get_output_outcome(index, bytes_outcome(result)),
    ;
}

/// A loaded model, which execution contexts are made from.
pub trait NnGraph: Sized + Send + Sync {
    type Context: NnExecutionContext;

    /// `init_execution_context` may give this result.
    open spec fn init_outcome(self, result: Result<Self::Context, NnErrno>) -> bool {
        true
    }

    fn init_execution_context(&self) -> (result: Result<Self::Context, NnErrno>)
        ensures
            self.init_outcome(result),
    ;
}

/// An inference engine. A process has one, set by its embedder.
pub trait NnBackend: Sized + Send + Sync {
    type Graph: NnGraph;

    /// `load` may give this result.
    open spec fn load_outcome(
        self,
        builders: Seq<Seq<u8>>,
        encoding: GraphEncoding,
        target: ExecutionTarget,
        result: Result<Self::Graph, NnErrno>,
    ) -> bool {
        true
    }

    /// `load_by_name` may give this result, besides `NotFound`.
    open spec fn named_outcome(self, name: Seq<char>, result: Result<Self::Graph, NnErrno>) -> bool {
        true
    }

    /// Loads a graph from raw model byte blobs.
    fn load(
        &self,
        builders: &[Vec<u8>],
        encoding: GraphEncoding,
        target: ExecutionTarget,
    ) -> (result: Result<Self::Graph, NnErrno>)
        ensures
            self.load_outcome(blob_views(builders@), encoding, target, result),
    ;

    /// Loads a graph that the embedder registered under a name. An engine need
    /// not support this; one that does not knows no name.
    fn load_by_name(&self, name: &str) -> (result: Result<Self::Graph, NnErrno>)
        ensures
            result == Err::<Self::Graph, NnErrno>(NnErrno::NotFound) || self.named_outcome(name@, result),
        default_ensures
            result == Err::<Self::Graph, NnErrno>(NnErrno::NotFound),
    {
        Err(NnErrno::NotFound)
    }
}

} // verus!
