# wasi_nn_host

The host side of two ABIs through which a core-wasm guest reaches an
accelerator:

- `wasi_ephemeral_nn`, the WASI-NN inference interface: `load`,
  `load_by_name`, `init_execution_context`, `set_input`, `compute`,
  `get_output`;
- `wasi_webgpu_v0`, a small subset of the Component Model's async interface:
  start an operation, join it to a waitable set, wait until a member of the set
  has resolved. There is no GPU behind it.

Everything in `src/` is verified with Verus. A host function takes the calling
process (`env::WasiEnv`) and the guest's memory (`memory::GuestMemory`) and
returns the code that the guest sees; its contract says, for all arguments, what
becomes of the tables and of every byte of memory.

## Layout

| | |
| --- | --- |
| `src/types.rs` | wire types of `wasi_ephemeral_nn` |
| `src/backend.rs` | the traits that an inference engine implements |
| `src/stub.rs` | the engine for embedders that set up none |
| `src/candle/` | an engine backed by `candle`: shapes, the calls into the crate, loading, running |
| `src/memory.rs` | guest memory |
| `src/env.rs` | capabilities and the process |
| `src/state/` | the handle tables of both namespaces |
| `src/syscalls/` | the host functions |
| `app/` | JSON configurations, and the async plumbing around the imports |

Proof functions named `law_...` state what holds across functions: that handles
are never reused, that a denied call changes nothing, that a wait delivers the
member that resolved, that a vector through a well-shaped layer stack comes out
as a vector.

What is trusted rather than proved stands in `src/candle/ops.rs`, in
`src/state/wake.rs`, and at the top of `src/state/webgpu.rs` and of
`src/syscalls/wasi_nn/load_by_name.rs`.

## Graphs of the `candle` engine

A graph is two blobs under the encoding `autodetect`: a JSON list of layers,

```json
{"layers": [
  {"type": "linear", "weight": "w0", "bias": "b0"},
  {"type": "relu"}
]}
```

and a safetensors file with the tensors that the layers name. A linear layer is
`y = x @ weight^T (+ bias)`. Inputs and outputs are single-precision floats, as
little-endian bytes on every machine.

Two things depend on the machine. `candle` reads the elements of a safetensors
file in the byte order of the machine, so a file is read as it was meant only on
a little-endian one; what a loaded file holds is stated for such a machine. And
the rounding of products and sums differs between machines, so no contract says
which numbers a linear layer gives.
