//! `load`: what a guest asks for, the request to the engine, and the graph that
//! comes back.

use vstd::prelude::*;

use super::types::{read_builders, WasmGraphBuilder};
use crate::backend::{NnBackend, NnGraph};
use crate::env::{CapabilityNnV1, WasiEnv};
use crate::memory::GuestMemory;
use crate::state::nn::{NnState, NnView};
use crate::types::{nn_errno_of, ExecutionTarget, GraphEncoding, NnErrno};

verus! {

/// The encoding that a guest's `u32` stands for.
pub open spec fn encoding_of(encoding: u32) -> Result<GraphEncoding, NnErrno> {
    if encoding <= 0xff {
        GraphEncoding::of_tag(encoding as u8)
    } else {
        Err(NnErrno::InvalidArgument)
    }
}

/// The execution target that a guest's `u32` stands for.
pub open spec fn target_of(target: u32) -> Result<ExecutionTarget, NnErrno> {
    if target <= 0xff {
        ExecutionTarget::of_tag(target as u8)
    } else {
        Err(NnErrno::InvalidArgument)
    }
}

/// The blobs that the `builder_len` records at `builder_ptr` point to, if the
/// records and every blob lie inside guest memory.
pub open spec fn blobs_at(mem: Seq<u8>, builder_ptr: u32, builder_len: u32) -> Option<Seq<Seq<u8>>> {
    match super::types::builders_at(mem, builder_ptr, builder_len) {
        None => None,
        Some(builders) => blobs_of(mem, builders),
    }
}

/// The blobs that `builders` point to, if every one lies inside guest memory.
pub open spec fn blobs_of(mem: Seq<u8>, builders: Seq<WasmGraphBuilder>) -> Option<Seq<Seq<u8>>> {
    if forall|i: int|
        0 <= i < builders.len() ==> crate::memory::bytes_read(
            mem,
            (#[trigger] builders[i]).ptr,
            builders[i].len,
        ) is Some {
        Some(
            builders.map_values(
                |b: WasmGraphBuilder| crate::memory::bytes_read(mem, b.ptr, b.len)->0,
            ),
        )
    } else {
        None
    }
}

/// How many bytes the blobs have together.
pub open spec fn total_len(blobs: Seq<Seq<u8>>) -> nat
    decreases blobs.len(),
{
    if blobs.len() == 0 {
        0
    } else {
        total_len(blobs.drop_last()) + blobs.last().len()
    }
}

/// What a `load` asks of the engine.
#[derive(Debug)]
pub struct LoadRequest {
    pub blobs: Vec<Vec<u8>>,
    pub encoding: GraphEncoding,
    pub target: ExecutionTarget,
}

/// What a [`LoadRequest`] holds.
#[verifier::ext_equal]
pub struct LoadRequestView {
    pub blobs: Seq<Seq<u8>>,
    pub encoding: GraphEncoding,
    pub target: ExecutionTarget,
}

impl View for LoadRequest {
    type V = LoadRequestView;

    open spec fn view(&self) -> LoadRequestView {
        LoadRequestView {
            blobs: crate::backend::blob_views(self.blobs@),
            encoding: self.encoding,
            target: self.target,
        }
    }
}

/// What the engine is asked for by a call of `load`, or why it is not asked.
/// The namespace has to be allowed; then the encoding and the target have to be
/// known, the GPU has to be allowed if it is the target, the blobs have to lie
/// in guest memory, and they must not be larger than the embedder permits.
pub open spec fn load_request_of(
    capability: CapabilityNnV1,
    mem: Seq<u8>,
    builder_ptr: u32,
    builder_len: u32,
    encoding: u32,
    target: u32,
) -> Result<LoadRequestView, NnErrno> {
    if !capability.allow {
        Err(NnErrno::UnsupportedOperation)
    } else {
        match (encoding_of(encoding), target_of(target)) {
            (Err(errno), _) => Err(errno),
            (Ok(_), Err(errno)) => Err(errno),
            (Ok(encoding), Ok(target)) => if target == ExecutionTarget::Gpu && !capability.allow_gpu {
                Err(NnErrno::UnsupportedOperation)
            } else {
                match blobs_at(mem, builder_ptr, builder_len) {
                    None => Err(NnErrno::MissingMemory),
                    Some(blobs) => if capability.max_model_bytes is Some && total_len(blobs)
                        > capability.max_model_bytes->0 {
                        Err(NnErrno::TooLarge)
                    } else {
                        Ok(LoadRequestView { blobs, encoding, target })
                    },
                }
            },
        }
    }
}

/// What becomes of the tables and of guest memory once the engine has answered
/// a request for a graph, and what the request comes out as. A graph is
/// registered before its handle is written, and stays registered where the
/// handle cannot be written.
pub open spec fn graph_delivered<G, C>(
    before: NnView<G, C>,
    mem: Seq<u8>,
    loaded: Result<G, NnErrno>,
    graph_out: u32,
) -> (NnView<G, C>, Seq<u8>, Result<(), NnErrno>) {
    match loaded {
        Err(errno) => (before, mem, Err(errno)),
        Ok(graph) => match before.next_handle() {
            Err(errno) => (before, mem, Err(errno)),
            Ok(handle) => match crate::memory::u32_written(mem, graph_out, handle) {
                None => (before.insert_graph(graph), mem, Err(NnErrno::MissingMemory)),
                Some(mem) => (before.insert_graph(graph), mem, Ok(())),
            },
        },
    }
}

/// Registers the graph that the engine answered with and writes its handle to
/// guest memory at `graph_out`.
pub fn deliver_graph<G, C>(
    nn: &mut NnState<G, C>,
    memory: &mut GuestMemory,
    loaded: Result<G, NnErrno>,
    graph_out: u32,
) -> (result: Result<(), NnErrno>)
    ensures
        (final(nn)@, final(memory)@, result) == graph_delivered(old(nn)@, old(memory)@, loaded, graph_out),
        old(nn)@.wf() ==> final(nn)@.wf(),
{
    let graph = match loaded {
        Ok(graph) => graph,
        Err(errno) => return Err(errno),
    };
    let handle: u32 = match nn.insert_graph(graph) {
        Ok(handle) => handle,
        Err(errno) => return Err(errno),
    };
    match memory.write_u32(graph_out, handle) {
        Ok(()) => Ok(()),
        Err(_) => Err(NnErrno::MissingMemory),
    }
}

/// Reads the `builder_len` records at `builder_ptr` and the bytes that each one
/// points to.
pub fn read_blobs(memory: &GuestMemory, builder_ptr: u32, builder_len: u32) -> (result: Result<
    Vec<Vec<u8>>,
    NnErrno,
>)
    ensures
        match result {
            Ok(blobs) => {
                &&& blobs_at(memory@, builder_ptr, builder_len) == Some(
                    crate::backend::blob_views(blobs@),
                )
                &&& blobs@.len() == builder_len
                &&& forall|i: int| 0 <= i < blobs@.len() ==> (#[trigger] blobs@[i])@.len() <= u32::MAX
            },
            Err(errno) => errno == NnErrno::MissingMemory && blobs_at(
                memory@,
                builder_ptr,
                builder_len,
            ) is None,
        },
{
    let builders: Vec<WasmGraphBuilder> = match read_builders(memory, builder_ptr, builder_len) {
        Ok(builders) => builders,
        Err(_) => return Err(NnErrno::MissingMemory),
    };
    let mut blobs: Vec<Vec<u8>> = Vec::with_capacity(builders.len());
    let mut i: usize = 0;
    while i < builders.len()
        invariant
            i <= builders.len(),
            builders@.len() == builder_len,
            super::types::builders_at(memory@, builder_ptr, builder_len) == Some(builders@),
            blobs@.len() == i,
            forall|j: int|
                0 <= j < i ==> crate::memory::bytes_read(
                    memory@,
                    (#[trigger] builders@[j]).ptr,
                    builders@[j].len,
                ) == Some(blobs@[j]@),
            forall|j: int| 0 <= j < i ==> (#[trigger] blobs@[j])@.len() <= u32::MAX,
        decreases builders.len() - i,
    {
        let builder: WasmGraphBuilder = builders[i];
        match memory.read_bytes(builder.ptr, builder.len) {
            Ok(blob) => blobs.push(blob),
            Err(_) => {
                assert(crate::memory::bytes_read(memory@, builders@[i as int].ptr, builders@[i as int].len) is None);
                return Err(NnErrno::MissingMemory);
            },
        }
        i += 1;
    }
    assert(blobs_of(memory@, builders@)->0 =~= crate::backend::blob_views(blobs@));
    Ok(blobs)
}

/// The blobs have at most `limit` bytes together.
fn within_limit(blobs: &Vec<Vec<u8>>, limit: u64) -> (within: bool)
    requires
        blobs@.len() <= u32::MAX,
        forall|i: int| 0 <= i < blobs@.len() ==> (#[trigger] blobs@[i])@.len() <= u32::MAX,
    ensures
        within == (total_len(crate::backend::blob_views(blobs@)) <= limit),
{
    let ghost views = crate::backend::blob_views(blobs@);
    let mut total: u64 = 0;
    let mut i: usize = 0;
    while i < blobs.len()
        invariant
            i <= blobs.len(),
            views == crate::backend::blob_views(blobs@),
            blobs@.len() <= u32::MAX,
            forall|j: int| 0 <= j < blobs@.len() ==> (#[trigger] blobs@[j])@.len() <= u32::MAX,
            total == total_len(views.take(i as int)),
            total <= i * u32::MAX,
        decreases blobs.len() - i,
    {
        assert(i * u32::MAX + u32::MAX == (i + 1) * u32::MAX) by (nonlinear_arith);
        assert((i + 1) * u32::MAX <= u32::MAX * u32::MAX) by (nonlinear_arith)
            requires
                i + 1 <= u32::MAX,
        ;
        assert(views.take(i + 1).drop_last() == views.take(i as int));
        assert(blobs@[i as int]@.len() <= u32::MAX);
        total = total + blobs[i].len() as u64;
        i += 1;
    }
    assert(views.take(i as int) == views);
    total <= limit
}

/// Checks a call of `load` and gathers what to ask the engine for.
pub fn load_request(
    capability: &CapabilityNnV1,
    memory: &GuestMemory,
    builder_ptr: u32,
    builder_len: u32,
    encoding: u32,
    target: u32,
) -> (result: Result<LoadRequest, NnErrno>)
    ensures
        match result {
            Ok(request) => load_request_of(
                *capability,
                memory@,
                builder_ptr,
                builder_len,
                encoding,
                target,
            ) == Ok::<LoadRequestView, NnErrno>(request@),
            Err(errno) => load_request_of(
                *capability,
                memory@,
                builder_ptr,
                builder_len,
                encoding,
                target,
            ) == Err::<LoadRequestView, NnErrno>(errno),
        },
{
    if !capability.allow {
        return Err(NnErrno::UnsupportedOperation);
    }
    let encoding_tag: u8 = match u8::try_from(encoding) {
        Ok(tag) => tag,
        Err(_) => return Err(NnErrno::InvalidArgument),
    };
    let encoding = match GraphEncoding::try_from(encoding_tag) {
        Ok(encoding) => encoding,
        Err(errno) => return Err(errno),
    };
    let target_tag: u8 = match u8::try_from(target) {
        Ok(tag) => tag,
        Err(_) => return Err(NnErrno::InvalidArgument),
    };
    let target = match ExecutionTarget::try_from(target_tag) {
        Ok(target) => target,
        Err(errno) => return Err(errno),
    };
    if target == ExecutionTarget::Gpu && !capability.allow_gpu {
        return Err(NnErrno::UnsupportedOperation);
    }
    let blobs = match read_blobs(memory, builder_ptr, builder_len) {
        Ok(blobs) => blobs,
        Err(errno) => return Err(errno),
    };
    match capability.max_model_bytes {
        Some(max) => {
            if !within_limit(&blobs, max) {
                return Err(NnErrno::TooLarge);
            }
        },
        None => {},
    }
    Ok(LoadRequest { blobs, encoding, target })
}

/// `load()`: loads a graph from the blobs that the `builder_len` records at
/// `builder_ptr` point to, and writes its handle to `graph_out`.
pub fn nn_load<B: NnBackend>(
    env: &mut WasiEnv<B>,
    memory: &mut GuestMemory,
    builder_ptr: u32,
    builder_len: u32,
    encoding: u32,
    target: u32,
    graph_out: u32,
) -> (code: u32)
    ensures
        old(env).changes_only_nn(*final(env)),
        match load_request_of(
            old(env).capabilities.nn,
            old(memory)@,
            builder_ptr,
            builder_len,
            encoding,
            target,
        ) {
            Err(errno) => {
                &&& code == errno.code()
                &&& *final(env) == *old(env)
                &&& final(memory)@ == old(memory)@
            },
            Ok(request) => exists|loaded: Result<B::Graph, NnErrno>|
                {
                    let delivered = graph_delivered(old(env).state.nn@, old(memory)@, loaded, graph_out);
                    &&& #[trigger] old(env).state.nn_backend.load_outcome(
                        request.blobs,
                        request.encoding,
                        request.target,
                        loaded,
                    )
                    &&& final(env).state.nn@ == delivered.0
                    &&& final(memory)@ == delivered.1
                    &&& code == crate::types::nn_return(delivered.2)
                },
        },
        old(env).wf() ==> final(env).wf(),
{
    let request = match load_request(
        &env.capabilities.nn,
        memory,
        builder_ptr,
        builder_len,
        encoding,
        target,
    ) {
        Ok(request) => request,
        Err(errno) => return errno.to_u32(),
    };
    let loaded = env.state.nn_backend.load(request.blobs.as_slice(), request.encoding, request.target);
    let ghost answer = loaded;
    let result = deliver_graph(&mut env.state.nn, memory, loaded, graph_out);
    assert(old(env).state.nn_backend.load_outcome(
        request@.blobs,
        request@.encoding,
        request@.target,
        answer,
    ));
    nn_errno_of(result)
}

} // verus!
