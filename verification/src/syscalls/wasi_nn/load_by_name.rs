//! `load_by_name`: graphs that the embedder registered with the engine.

use std::string::FromUtf8Error;

use vstd::prelude::*;

use super::load::deliver_graph;
use crate::backend::NnBackend;
use crate::env::{CapabilityNnV1, WasiEnv};
use crate::memory::GuestMemory;
use crate::types::{nn_errno_of, NnErrno};

verus! {

/// `std::string::FromUtf8Error`, carried as an opaque value.
#[verifier::external_type_specification]
#[verifier::external_body]
pub struct ExFromUtf8Error(FromUtf8Error);

/// `String::from_utf8` gives the string that the bytes encode, and an error
/// exactly where they are not valid UTF-8.
pub assume_specification[ String::from_utf8 ](vec: Vec<u8>) -> (result: Result<String, FromUtf8Error>)
    ensures
        match result {
            Ok(string) => vstd::utf8::valid_utf8(vec@) && string@ == vstd::utf8::decode_utf8(vec@),
            Err(_) => !vstd::utf8::valid_utf8(vec@),
        },
;

/// The name that a call of `load_by_name` passes, or why there is none.
pub open spec fn name_of(
    capability: CapabilityNnV1,
    mem: Seq<u8>,
    name_ptr: u32,
    name_len: u32,
) -> Result<Seq<char>, NnErrno> {
    if !capability.allow {
        Err(NnErrno::UnsupportedOperation)
    } else {
        match crate::memory::bytes_read(mem, name_ptr, name_len) {
            None => Err(NnErrno::MissingMemory),
            Some(bytes) => if vstd::utf8::valid_utf8(bytes) {
                Ok(vstd::utf8::decode_utf8(bytes))
            } else {
                Err(NnErrno::InvalidArgument)
            },
        }
    }
}

/// Checks a call of `load_by_name` and reads the name that it passes.
pub fn requested_name(
    capability: &CapabilityNnV1,
    memory: &GuestMemory,
    name_ptr: u32,
    name_len: u32,
) -> (result: Result<String, NnErrno>)
    ensures
        match result {
            Ok(name) => name_of(*capability, memory@, name_ptr, name_len) == Ok::<Seq<char>, NnErrno>(name@),
            Err(errno) => name_of(*capability, memory@, name_ptr, name_len) == Err::<Seq<char>, NnErrno>(
                errno,
            ),
        },
{
    if !capability.allow {
        return Err(NnErrno::UnsupportedOperation);
    }
    let bytes = match memory.read_bytes(name_ptr, name_len) {
        Ok(bytes) => bytes,
        Err(_) => return Err(NnErrno::MissingMemory),
    };
    match String::from_utf8(bytes) {
        Ok(name) => Ok(name),
        Err(_) => Err(NnErrno::InvalidArgument),
    }
}

/// `load_by_name()`: loads the graph that the embedder registered under the
/// name in the `name_len` bytes at `name_ptr`, and writes its handle to
/// `graph_out`. The engine is asked with exactly that name, and its error is
/// handed on as it is.
pub fn nn_load_by_name<B: NnBackend>(
    env: &mut WasiEnv<B>,
    memory: &mut GuestMemory,
    name_ptr: u32,
    name_len: u32,
    graph_out: u32,
) -> (code: u32)
    ensures
        old(env).changes_only_nn(*final(env)),
        match name_of(old(env).capabilities.nn, old(memory)@, name_ptr, name_len) {
            Err(errno) => {
                &&& code == errno.code()
                &&& *final(env) == *old(env)
                &&& final(memory)@ == old(memory)@
            },
            Ok(name) => exists|asked: &str, loaded: Result<B::Graph, NnErrno>|
                {
                    let delivered = super::load::graph_delivered(
                        old(env).state.nn@,
                        old(memory)@,
                        loaded,
                        graph_out,
                    );
                    &&& asked@ == name
                    &&& #[trigger] call_ensures(
                        B::load_by_name,
                        (&old(env).state.nn_backend, asked),
                        loaded,
                    )
                    &&& final(env).state.nn@ == delivered.0
                    &&& final(memory)@ == delivered.1
                    &&& code == crate::types::nn_return(delivered.2)
                },
        },
        old(env).wf() ==> final(env).wf(),
{
    let name: String = match requested_name(&env.capabilities.nn, memory, name_ptr, name_len) {
        Ok(name) => name,
        Err(errno) => return errno.to_u32(),
    };
    let asked: &str = name.as_str();
    let loaded = env.state.nn_backend.load_by_name(asked);
    let ghost answer = loaded;
    assert(call_ensures(B::load_by_name, (&old(env).state.nn_backend, asked), answer));
    let result = deliver_graph(&mut env.state.nn, memory, loaded, graph_out);
    nn_errno_of(result)
}

} // verus!
