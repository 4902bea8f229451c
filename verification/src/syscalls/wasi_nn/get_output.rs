//! `get_output`: handing an output to the guest.

use vstd::prelude::*;

use crate::backend::{NnBackend, NnExecutionContext};
use crate::env::WasiEnv;
use crate::memory::GuestMemory;
use crate::types::{nn_errno_of, NnErrno};

verus! {

/// What becomes of guest memory once a context has answered a request for an
/// output, and what the request comes out as. The bytes are written before
/// their number, and stay written where the number cannot be.
pub open spec fn output_delivered(
    mem: Seq<u8>,
    output: Result<Seq<u8>, NnErrno>,
    out_buffer: u32,
    out_buffer_max_size: u32,
    bytes_written_out: u32,
) -> (Seq<u8>, Result<(), NnErrno>) {
    match output {
        Err(errno) => (mem, Err(errno)),
        Ok(bytes) => if bytes.len() > out_buffer_max_size {
            (mem, Err(NnErrno::TooLarge))
        } else {
            match crate::memory::bytes_written(mem, out_buffer, bytes) {
                None => (mem, Err(NnErrno::MissingMemory)),
                Some(filled) => match crate::memory::u32_written(
                    filled,
                    bytes_written_out,
                    bytes.len() as u32,
                ) {
                    None => (filled, Err(NnErrno::MissingMemory)),
                    Some(done) => (done, Ok(())),
                },
            }
        },
    }
}

/// Writes an output to guest memory at `out_buffer`, which has room for
/// `out_buffer_max_size` bytes, and the number of bytes to `bytes_written_out`.
pub fn deliver_output(
    memory: &mut GuestMemory,
    output: Result<Vec<u8>, NnErrno>,
    out_buffer: u32,
    out_buffer_max_size: u32,
    bytes_written_out: u32,
) -> (result: Result<(), NnErrno>)
    ensures
        (final(memory)@, result) == output_delivered(
            old(memory)@,
            crate::backend::bytes_outcome(output),
            out_buffer,
            out_buffer_max_size,
            bytes_written_out,
        ),
{
    let output: Vec<u8> = match output {
        Ok(output) => output,
        Err(errno) => return Err(errno),
    };
    let written: u32 = match u32::try_from(output.len()) {
        Ok(written) => written,
        Err(_) => return Err(NnErrno::TooLarge),
    };
    if written > out_buffer_max_size {
        return Err(NnErrno::TooLarge);
    }
    match memory.write_bytes(out_buffer, output.as_slice()) {
        Ok(()) => {},
        Err(_) => return Err(NnErrno::MissingMemory),
    }
    match memory.write_u32(bytes_written_out, written) {
        Ok(()) => Ok(()),
        Err(_) => Err(NnErrno::MissingMemory),
    }
}

/// `get_output()`: copies output `index` of context `context` to `out_buffer`,
/// which has room for `out_buffer_max_size` bytes, and writes the number of
/// bytes to `bytes_written_out`.
pub fn nn_get_output<B: NnBackend>(
    env: &WasiEnv<B>,
    memory: &mut GuestMemory,
    context: u32,
    index: u32,
    out_buffer: u32,
    out_buffer_max_size: u32,
    bytes_written_out: u32,
) -> (code: u32)
    ensures
        if !env.capabilities.nn.allow {
            code == NnErrno::UnsupportedOperation.code() && final(memory)@ == old(memory)@
        } else if !env.state.nn@.contexts.contains_key(context) {
            code == NnErrno::NotFound.code() && final(memory)@ == old(memory)@
        } else {
            exists|output: Result<Seq<u8>, NnErrno>|
                {
                    let delivered = output_delivered(
                        old(memory)@,
                        output,
                        out_buffer,
                        out_buffer_max_size,
                        bytes_written_out,
                    );
                    &&& #[trigger] env.state.nn@.contexts[context].get_output_outcome(index, output)
                    &&& final(memory)@ == delivered.0
                    &&& code == crate::types::nn_return(delivered.1)
                }
        },
{
    if !env.capabilities.nn.allow {
        return NnErrno::UnsupportedOperation.to_u32();
    }
    let output = match env.state.nn.context(context) {
        Some(exec_ctx) => exec_ctx.get_output(index),
        None => return NnErrno::NotFound.to_u32(),
    };
    let ghost answer = crate::backend::bytes_outcome(output);
    let result = deliver_output(memory, output, out_buffer, out_buffer_max_size, bytes_written_out);
    assert(env.state.nn@.contexts[context].get_output_outcome(index, answer));
    nn_errno_of(result)
}

/// An output that fits is in guest memory afterwards, in full and with its
/// length; one that does not fit its buffer leaves guest memory as it was.
pub proof fn law_output_is_delivered_in_full(
    mem: Seq<u8>,
    bytes: Seq<u8>,
    out_buffer: u32,
    out_buffer_max_size: u32,
    bytes_written_out: u32,
)
    ensures
        ({
            let (after, result) = output_delivered(
                mem,
                Ok(bytes),
                out_buffer,
                out_buffer_max_size,
                bytes_written_out,
            );
            &&& after.len() == mem.len()
            &&& result is Ok ==> {
                &&& bytes.len() <= out_buffer_max_size
                &&& crate::memory::u32_at(after, bytes_written_out as int) == bytes.len()
                &&& (bytes_written_out + 4 <= out_buffer || out_buffer + bytes.len() <= bytes_written_out
                    ==> crate::memory::bytes_read(after, out_buffer, bytes.len() as u32) == Some(bytes))
            }
            &&& bytes.len() > out_buffer_max_size ==> result == Err::<(), NnErrno>(NnErrno::TooLarge)
                && after == mem
        }),
{
    if bytes.len() <= out_buffer_max_size {
        if let Some(filled) = crate::memory::bytes_written(mem, out_buffer, bytes) {
            let written = bytes.len() as u32;
            if let Some(done) = crate::memory::u32_written(filled, bytes_written_out, written) {
                crate::memory::law_u32_read_after_write(filled, bytes_written_out, written);
                if bytes_written_out + 4 <= out_buffer || out_buffer + bytes.len() <= bytes_written_out {
                    assert(done.subrange(out_buffer as int, out_buffer + bytes.len()) =~= bytes);
                }
            }
        }
    }
}

} // verus!
