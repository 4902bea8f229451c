//! `init_execution_context`: making a context from a loaded graph.

use vstd::prelude::*;

use crate::backend::{NnBackend, NnGraph};
use crate::env::WasiEnv;
use crate::memory::GuestMemory;
use crate::state::nn::{NnState, NnView};
use crate::types::{nn_errno_of, NnErrno};

verus! {

/// What becomes of the tables and of guest memory once a graph has answered a
/// request for a context, and what the request comes out as. A context is
/// registered before its handle is written, and stays registered where the
/// handle cannot be written.
pub open spec fn context_delivered<G, C>(
    before: NnView<G, C>,
    mem: Seq<u8>,
    made: Result<C, NnErrno>,
    context_out: u32,
) -> (NnView<G, C>, Seq<u8>, Result<(), NnErrno>) {
    match made {
        Err(errno) => (before, mem, Err(errno)),
        Ok(context) => match before.next_handle() {
            Err(errno) => (before, mem, Err(errno)),
            Ok(handle) => match crate::memory::u32_written(mem, context_out, handle) {
                None => (before.insert_context(context), mem, Err(NnErrno::MissingMemory)),
                Some(mem) => (before.insert_context(context), mem, Ok(())),
            },
        },
    }
}

/// Registers the context that the graph answered with and writes its handle to
/// guest memory at `context_out`.
pub fn deliver_context<G, C>(
    nn: &mut NnState<G, C>,
    memory: &mut GuestMemory,
    made: Result<C, NnErrno>,
    context_out: u32,
) -> (result: Result<(), NnErrno>)
    ensures
        (final(nn)@, final(memory)@, result) == context_delivered(old(nn)@, old(memory)@, made, context_out),
        old(nn)@.wf() ==> final(nn)@.wf(),
{
    let context = match made {
        Ok(context) => context,
        Err(errno) => return Err(errno),
    };
    let handle: u32 = match nn.insert_context(context) {
        Ok(handle) => handle,
        Err(errno) => return Err(errno),
    };
    match memory.write_u32(context_out, handle) {
        Ok(()) => Ok(()),
        Err(_) => Err(NnErrno::MissingMemory),
    }
}

/// `init_execution_context()`: makes an execution context from the graph
/// `graph` and writes its handle to `context_out`.
pub fn nn_init_execution_context<B: NnBackend>(
    env: &mut WasiEnv<B>,
    memory: &mut GuestMemory,
    graph: u32,
    context_out: u32,
) -> (code: u32)
    ensures
        old(env).changes_only_nn(*final(env)),
        if !old(env).capabilities.nn.allow {
            &&& code == NnErrno::UnsupportedOperation.code()
            &&& *final(env) == *old(env)
            &&& final(memory)@ == old(memory)@
        } else if !old(env).state.nn@.graphs.contains_key(graph) {
            &&& code == NnErrno::NotFound.code()
            &&& *final(env) == *old(env)
            &&& final(memory)@ == old(memory)@
        } else {
            exists|made: Result<<B::Graph as NnGraph>::Context, NnErrno>|
                {
                    let delivered = context_delivered(old(env).state.nn@, old(memory)@, made, context_out);
                    &&& #[trigger] old(env).state.nn@.graphs[graph].init_outcome(made)
                    &&& final(env).state.nn@ == delivered.0
                    &&& final(memory)@ == delivered.1
                    &&& code == crate::types::nn_return(delivered.2)
                }
        },
        old(env).wf() ==> final(env).wf(),
{
    if !env.capabilities.nn.allow {
        return NnErrno::UnsupportedOperation.to_u32();
    }
    let made = match env.state.nn.graph(graph) {
        Some(graph) => graph.init_execution_context(),
        None => return NnErrno::NotFound.to_u32(),
    };
    let ghost answer = made;
    let result = deliver_context(&mut env.state.nn, memory, made, context_out);
    assert(old(env).state.nn@.graphs[graph].init_outcome(answer));
    nn_errno_of(result)
}

} // verus!
