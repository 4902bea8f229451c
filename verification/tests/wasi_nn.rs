use wasi_nn_host::backend::{NnBackend, NnExecutionContext, NnGraph};
use wasi_nn_host::candle::backend::{CandleBackend, LayerConfig, LayerStackGraph, ModelConfig};
use wasi_nn_host::env::{Capabilities, CapabilityNnV1, CapabilityWebgpuSpikeV1, WasiEnv};
use wasi_nn_host::memory::GuestMemory;
use wasi_nn_host::state::nn::NnState;
use wasi_nn_host::stub::CpuStub;
use wasi_nn_host::syscalls::wasi_nn::compute::nn_compute;
use wasi_nn_host::syscalls::wasi_nn::get_output::{deliver_output, nn_get_output};
use wasi_nn_host::syscalls::wasi_nn::init_execution_context::{
    deliver_context, nn_init_execution_context,
};
use wasi_nn_host::syscalls::wasi_nn::load::{deliver_graph, load_request, nn_load, read_blobs};
use wasi_nn_host::syscalls::wasi_nn::load_by_name::{nn_load_by_name, requested_name};
use wasi_nn_host::syscalls::wasi_nn::set_input::{nn_set_input, read_tensor};
use wasi_nn_host::syscalls::wasi_nn::types::{read_builders, read_tensor_record};
use wasi_nn_host::types::{ExecutionTarget, GraphEncoding, NnErrno, Tensor, TensorType};

const GRAPH_BUILDER_ARRAY_OFFSET: u32 = 0;
const GRAPH_OUT_OFFSET: u32 = 16;
const CONTEXT_OUT_OFFSET: u32 = 20;
const DIMS_OFFSET: u32 = 24;
const NAME_OFFSET: u32 = 32;
const INPUT_DATA_OFFSET: u32 = 64;
const TENSOR_OFFSET: u32 = 96;
const OUTPUT_BUFFER_OFFSET: u32 = 128;
const OUTPUT_BUFFER_CAPACITY: u32 = 64;
const BYTES_WRITTEN_OFFSET: u32 = 256;
const CONFIG_BYTES_OFFSET: u32 = 4096;
const WEIGHTS_BYTES_OFFSET: u32 = 8192;
const MEMORY_SIZE: usize = 2 * 65536;

/// The engine behind a process that decodes its configurations from JSON.
struct JsonBackend(CandleBackend);

fn decode(bytes: &[u8]) -> Option<ModelConfig> {
    let value: serde_json::Value = serde_json::from_slice(bytes).ok()?;
    let mut layers = Vec::new();
    for layer in value.get("layers")?.as_array()? {
        layers.push(match layer.get("type")?.as_str()? {
            "linear" => LayerConfig::Linear {
                weight: layer.get("weight")?.as_str()?.to_string(),
                bias: layer.get("bias").and_then(|b| b.as_str()).map(|b| b.to_string()),
            },
            "relu" => LayerConfig::Relu,
            _ => return None,
        });
    }
    Some(ModelConfig { layers })
}

impl NnBackend for JsonBackend {
    type Graph = LayerStackGraph;

    fn load(
        &self,
        builders: &[Vec<u8>],
        encoding: GraphEncoding,
        target: ExecutionTarget,
    ) -> Result<LayerStackGraph, NnErrno> {
        let config = builders.first().and_then(|bytes| decode(bytes));
        self.0.load(builders, encoding, target, config)
    }
}

/// An engine whose graphs are named, and whose contexts echo their input.
struct Echo;

#[derive(Debug, PartialEq)]
struct EchoGraph(String);

#[derive(Debug, PartialEq)]
struct EchoContext(Vec<u8>);

impl NnBackend for Echo {
    type Graph = EchoGraph;

    fn load(
        &self,
        builders: &[Vec<u8>],
        encoding: GraphEncoding,
        target: ExecutionTarget,
    ) -> Result<EchoGraph, NnErrno> {
        Ok(EchoGraph(format!("{:?} {:?} {:?}", builders, encoding, target)))
    }

    fn load_by_name(&self, name: &str) -> Result<EchoGraph, NnErrno> {
        if name == "busy" {
            return Err(NnErrno::Busy);
        }
        Ok(EchoGraph(name.to_string()))
    }
}

impl NnGraph for EchoGraph {
    type Context = EchoContext;

    fn init_execution_context(&self) -> Result<EchoContext, NnErrno> {
        if self.0 == "broken" {
            return Err(NnErrno::RuntimeError);
        }
        Ok(EchoContext(Vec::new()))
    }
}

impl NnExecutionContext for EchoContext {
    fn set_input(&mut self, index: u32, tensor: Tensor) -> Result<(), NnErrno> {
        if index != 0 {
            return Err(NnErrno::InvalidArgument);
        }
        self.0 = tensor.data;
        Ok(())
    }

    fn compute(&mut self) -> Result<(), NnErrno> {
        if self.0.is_empty() {
            return Err(NnErrno::Busy);
        }
        self.0.reverse();
        Ok(())
    }

    fn get_output(&self, index: u32) -> Result<Vec<u8>, NnErrno> {
        if index != 0 {
            return Err(NnErrno::InvalidArgument);
        }
        Ok(self.0.clone())
    }
}

fn allowing(nn: CapabilityNnV1) -> Capabilities {
    Capabilities { nn, webgpu_spike: CapabilityWebgpuSpikeV1 { allow: false } }
}

fn everything() -> Capabilities {
    allowing(CapabilityNnV1 { allow: true, allow_gpu: true, max_model_bytes: None })
}

fn write(memory: &mut GuestMemory, at: u32, bytes: &[u8]) {
    memory.write_bytes(at, bytes).expect("write guest memory");
}

fn read_u32(memory: &GuestMemory, at: u32) -> u32 {
    memory.read_u32(at).expect("read guest memory")
}

fn pack_graph_builder(ptr: u32, len: u32) -> Vec<u8> {
    let mut buf = ptr.to_le_bytes().to_vec();
    buf.extend_from_slice(&len.to_le_bytes());
    buf
}

fn pack_tensor(
    dimensions_ptr: u32,
    dimensions_len: u32,
    ty: u8,
    data_ptr: u32,
    data_len: u32,
) -> Vec<u8> {
    let mut buf = dimensions_ptr.to_le_bytes().to_vec();
    buf.extend_from_slice(&dimensions_len.to_le_bytes());
    buf.extend_from_slice(&[ty, 0, 0, 0]);
    buf.extend_from_slice(&data_ptr.to_le_bytes());
    buf.extend_from_slice(&data_len.to_le_bytes());
    buf
}

/// A one-layer model: weight [[1,0],[0,1],[1,1]], bias [0,0,1].
fn tiny_linear_graph() -> (Vec<u8>, Vec<u8>) {
    let header = concat_header();
    let mut weights = (header.len() as u64).to_le_bytes().to_vec();
    weights.extend_from_slice(header.as_bytes());
    for value in [0f32, 0.0, 1.0, 1.0, 0.0, 0.0, 1.0, 1.0, 1.0] {
        weights.extend_from_slice(&value.to_le_bytes());
    }
    let config = r#"{"layers": [{"type": "linear", "weight": "weight", "bias": "bias"}]}"#;
    (config.as_bytes().to_vec(), weights)
}

fn concat_header() -> String {
    format!(
        "{{{},{}}}",
        r#""bias":{"dtype":"F32","shape":[3],"data_offsets":[0,12]}"#,
        r#""weight":{"dtype":"F32","shape":[3,2],"data_offsets":[12,36]}"#
    )
}

/// Drives the whole sequence on the engine, on [3, 4], and returns the output.
fn run_sequence(capabilities: Capabilities) -> Vec<f32> {
    let mut memory = GuestMemory::new(vec![0; MEMORY_SIZE]);
    let mut env = WasiEnv::new(capabilities, JsonBackend(CandleBackend::new()));

    let (config_bytes, weights_bytes) = tiny_linear_graph();
    write(&mut memory, CONFIG_BYTES_OFFSET, &config_bytes);
    write(&mut memory, WEIGHTS_BYTES_OFFSET, &weights_bytes);
    let mut records = pack_graph_builder(CONFIG_BYTES_OFFSET, config_bytes.len() as u32);
    records.extend(pack_graph_builder(WEIGHTS_BYTES_OFFSET, weights_bytes.len() as u32));
    write(&mut memory, GRAPH_BUILDER_ARRAY_OFFSET, &records);
    let errno = nn_load(
        &mut env,
        &mut memory,
        GRAPH_BUILDER_ARRAY_OFFSET,
        2,
        GraphEncoding::Autodetect as u32,
        ExecutionTarget::Cpu as u32,
        GRAPH_OUT_OFFSET,
    );
    assert_eq!(errno, NnErrno::Success.to_u32(), "load failed with errno {}", errno);
    let graph = read_u32(&memory, GRAPH_OUT_OFFSET);

    let errno = nn_init_execution_context(&mut env, &mut memory, graph, CONTEXT_OUT_OFFSET);
    assert_eq!(errno, NnErrno::Success.to_u32());
    let context = read_u32(&memory, CONTEXT_OUT_OFFSET);

    write(&mut memory, DIMS_OFFSET, &2u32.to_le_bytes());
    let input: [f32; 2] = [3.0, 4.0];
    let input_bytes: Vec<u8> = input.iter().flat_map(|f| f.to_le_bytes()).collect();
    write(&mut memory, INPUT_DATA_OFFSET, &input_bytes);
    let record = pack_tensor(
        DIMS_OFFSET,
        1,
        TensorType::F32 as u8,
        INPUT_DATA_OFFSET,
        input_bytes.len() as u32,
    );
    write(&mut memory, TENSOR_OFFSET, &record);
    let errno = nn_set_input(&mut env, &memory, context, 0, TENSOR_OFFSET);
    assert_eq!(errno, NnErrno::Success.to_u32());

    let errno = nn_compute(&mut env, context);
    assert_eq!(errno, NnErrno::Success.to_u32());

    let errno = nn_get_output(
        &env,
        &mut memory,
        context,
        0,
        OUTPUT_BUFFER_OFFSET,
        OUTPUT_BUFFER_CAPACITY,
        BYTES_WRITTEN_OFFSET,
    );
    assert_eq!(errno, NnErrno::Success.to_u32());
    let written = read_u32(&memory, BYTES_WRITTEN_OFFSET);
    assert_eq!(written, 12, "expected 3 f32 output elements (12 bytes)");
    let output = memory.read_bytes(OUTPUT_BUFFER_OFFSET, written).expect("read output bytes");

    // This engine knows no names.
    write(&mut memory, NAME_OFFSET, b"nonexistent-graph");
    let errno = nn_load_by_name(
        &mut env,
        &mut memory,
        NAME_OFFSET,
        "nonexistent-graph".len() as u32,
        GRAPH_OUT_OFFSET,
    );
    assert_eq!(errno, NnErrno::NotFound.to_u32());

    output.chunks_exact(4).map(|c| f32::from_le_bytes([c[0], c[1], c[2], c[3]])).collect()
}

#[test]
fn wasi_ephemeral_nn_end_to_end_cpu_inference() {
    // [3,4] @ [[1,0],[0,1],[1,1]]^T + [0,0,1] = [3, 4, 3+4+1] = [3, 4, 8]
    assert_eq!(run_sequence(everything()), vec![3.0, 4.0, 8.0]);
}

#[test]
fn wasi_runner_wires_nn_backend_into_webc_env() {
    let capabilities =
        allowing(CapabilityNnV1 { allow: true, allow_gpu: false, max_model_bytes: None });
    assert_eq!(run_sequence(capabilities), vec![3.0, 4.0, 8.0]);
}

#[test]
fn nothing_is_allowed_by_default() {
    let mut memory = GuestMemory::new(vec![7; 512]);
    let mut env = WasiEnv::new(Capabilities::default(), Echo);
    let refused = NnErrno::UnsupportedOperation.to_u32();
    assert_eq!(nn_load(&mut env, &mut memory, 0, 0, 5, 0, 16), refused);
    assert_eq!(nn_load_by_name(&mut env, &mut memory, 0, 1, 16), refused);
    assert_eq!(nn_init_execution_context(&mut env, &mut memory, 1, 16), refused);
    assert_eq!(nn_set_input(&mut env, &memory, 1, 0, 0), refused);
    assert_eq!(nn_compute(&mut env, 1), refused);
    assert_eq!(nn_get_output(&env, &mut memory, 1, 0, 0, 64, 64), refused);
    assert_eq!(memory.into_bytes(), vec![7; 512]);
    assert_eq!(env.state.nn.graph_count(), 0);
}

#[test]
fn the_default_engine_supports_nothing() {
    let mut memory = GuestMemory::new(vec![0; 64]);
    let mut env = WasiEnv::new(everything(), CpuStub);
    let unsupported = NnErrno::UnsupportedOperation.to_u32();
    assert_eq!(nn_load(&mut env, &mut memory, 0, 0, 5, 0, 16), unsupported);
    write(&mut memory, 0, b"name");
    assert_eq!(nn_load_by_name(&mut env, &mut memory, 0, 4, 16), NnErrno::NotFound.to_u32());
    assert_eq!(CpuStub.load_by_name("x").unwrap_err(), NnErrno::NotFound);
}

#[test]
fn load_hands_the_engine_what_the_records_point_to() {
    let mut memory = GuestMemory::new(vec![0; 128]);
    let mut env = WasiEnv::new(everything(), Echo);
    write(&mut memory, 0, &pack_graph_builder(64, 2));
    write(&mut memory, 8, &pack_graph_builder(66, 1));
    write(&mut memory, 64, &[1, 2, 3]);
    assert_eq!(nn_load(&mut env, &mut memory, 0, 2, 1, 2, 16), 0);
    let handle = read_u32(&memory, 16);
    assert_eq!(handle, 1);
    assert_eq!(
        env.state.nn.graph(handle),
        Some(&EchoGraph("[[1, 2], [3]] Onnx Tpu".to_string()))
    );
}

#[test]
fn load_checks_its_arguments_in_order() {
    let mut memory = GuestMemory::new(vec![0; 128]);
    let capability = CapabilityNnV1 { allow: true, allow_gpu: false, max_model_bytes: Some(3) };
    let mut env = WasiEnv::new(allowing(capability), Echo);
    let mut code = |memory: &mut GuestMemory, ptr: u32, len: u32, encoding: u32, target: u32| {
        nn_load(&mut env, memory, ptr, len, encoding, target, 32)
    };
    let invalid = NnErrno::InvalidArgument.to_u32();
    assert_eq!(code(&mut memory, 0, 1, 6, 1), invalid);
    assert_eq!(code(&mut memory, 0, 1, 256, 0), invalid);
    assert_eq!(code(&mut memory, 0, 1, 5, 3), invalid);
    assert_eq!(code(&mut memory, 0, 1, 5, 256), invalid);
    // The GPU is refused before the blobs are looked at.
    assert_eq!(code(&mut memory, 1000, 1, 5, 1), NnErrno::UnsupportedOperation.to_u32());
    assert_eq!(code(&mut memory, 121, 1, 5, 0), NnErrno::MissingMemory.to_u32());
    write(&mut memory, 0, &pack_graph_builder(127, 2));
    assert_eq!(code(&mut memory, 0, 1, 5, 0), NnErrno::MissingMemory.to_u32());
    write(&mut memory, 0, &pack_graph_builder(64, 2));
    write(&mut memory, 8, &pack_graph_builder(64, 2));
    assert_eq!(code(&mut memory, 0, 2, 5, 0), NnErrno::TooLarge.to_u32());
    write(&mut memory, 8, &pack_graph_builder(64, 1));
    assert_eq!(code(&mut memory, 0, 2, 5, 0), 0);
}

#[test]
fn a_graph_stays_registered_where_its_handle_cannot_be_written() {
    let mut memory = GuestMemory::new(vec![0; 16]);
    let mut env = WasiEnv::new(everything(), Echo);
    let missing = NnErrno::MissingMemory.to_u32();
    assert_eq!(nn_load(&mut env, &mut memory, 0, 0, 5, 0, 13), missing);
    assert_eq!(env.state.nn.graph_count(), 1);
    assert_eq!(nn_init_execution_context(&mut env, &mut memory, 1, 13), missing);
    assert_eq!(env.state.nn.context_count(), 1);
}

#[test]
fn names_have_to_be_utf8_and_in_memory() {
    let mut memory = GuestMemory::new(vec![0; 32]);
    let mut env = WasiEnv::new(everything(), Echo);
    write(&mut memory, 0, "gr\u{fc}n".as_bytes());
    assert_eq!(nn_load_by_name(&mut env, &mut memory, 0, 5, 16), 0);
    assert_eq!(env.state.nn.graph(1), Some(&EchoGraph("gr\u{fc}n".to_string())));
    // Half of a two-byte character.
    let invalid = NnErrno::InvalidArgument.to_u32();
    assert_eq!(nn_load_by_name(&mut env, &mut memory, 0, 3, 16), invalid);
    let missing = NnErrno::MissingMemory.to_u32();
    assert_eq!(nn_load_by_name(&mut env, &mut memory, 30, 3, 16), missing);
    // What the engine answers is handed on.
    write(&mut memory, 0, b"busy");
    assert_eq!(nn_load_by_name(&mut env, &mut memory, 0, 4, 16), NnErrno::Busy.to_u32());
    let capability = CapabilityNnV1 { allow: true, allow_gpu: false, max_model_bytes: None };
    assert_eq!(requested_name(&capability, &memory, 0, 4).unwrap(), "busy");
}

#[test]
fn contexts_are_made_from_known_graphs_only() {
    let mut memory = GuestMemory::new(vec![0; 64]);
    let mut env = WasiEnv::new(everything(), Echo);
    let not_found = NnErrno::NotFound.to_u32();
    assert_eq!(nn_init_execution_context(&mut env, &mut memory, 1, 0), not_found);
    write(&mut memory, 32, b"broken");
    assert_eq!(nn_load_by_name(&mut env, &mut memory, 32, 6, 0), 0);
    // The graph's own error is handed on, and nothing is registered.
    let runtime_error = NnErrno::RuntimeError.to_u32();
    assert_eq!(nn_init_execution_context(&mut env, &mut memory, 1, 0), runtime_error);
    assert_eq!(env.state.nn.context_count(), 0);
    write(&mut memory, 32, b"works!");
    assert_eq!(nn_load_by_name(&mut env, &mut memory, 32, 6, 0), 0);
    assert_eq!(nn_init_execution_context(&mut env, &mut memory, 2, 0), 0);
    assert_eq!(read_u32(&memory, 0), 3);
    // A context is no graph.
    assert_eq!(nn_init_execution_context(&mut env, &mut memory, 3, 0), not_found);
}

/// A process with one graph (1) and one context (2).
fn with_context() -> (WasiEnv<Echo>, GuestMemory) {
    let mut memory = GuestMemory::new(vec![0; 128]);
    let mut env = WasiEnv::new(everything(), Echo);
    assert_eq!(nn_load_by_name(&mut env, &mut memory, 0, 1, 0), 0);
    assert_eq!(nn_init_execution_context(&mut env, &mut memory, 1, 0), 0);
    (env, memory)
}

#[test]
fn set_input_checks_its_arguments_in_order() {
    let (mut env, mut memory) = with_context();
    let missing = NnErrno::MissingMemory.to_u32();
    assert_eq!(nn_set_input(&mut env, &memory, 2, 0, 109), missing);
    write(&mut memory, 8, &pack_tensor(40, 1, 6, 44, 3));
    assert_eq!(nn_set_input(&mut env, &memory, 2, 0, 8), NnErrno::InvalidArgument.to_u32());
    write(&mut memory, 8, &pack_tensor(125, 1, 1, 44, 3));
    assert_eq!(nn_set_input(&mut env, &memory, 2, 0, 8), missing);
    write(&mut memory, 8, &pack_tensor(40, 1, 1, 126, 3));
    assert_eq!(nn_set_input(&mut env, &memory, 2, 0, 8), missing);
    write(&mut memory, 8, &pack_tensor(40, 1, 1, 44, 3));
    assert_eq!(nn_set_input(&mut env, &memory, 9, 0, 8), NnErrno::NotFound.to_u32());
    assert_eq!(nn_set_input(&mut env, &memory, 2, 1, 8), NnErrno::InvalidArgument.to_u32());
    assert_eq!(nn_set_input(&mut env, &memory, 2, 0, 8), 0);
}

#[test]
fn an_input_goes_through_the_context_to_the_guest() {
    let (mut env, mut memory) = with_context();
    assert_eq!(nn_compute(&mut env, 2), NnErrno::Busy.to_u32());
    assert_eq!(nn_compute(&mut env, 1), NnErrno::NotFound.to_u32());
    write(&mut memory, 8, &pack_tensor(40, 1, 4, 44, 3));
    write(&mut memory, 40, &3u32.to_le_bytes());
    write(&mut memory, 44, &[10, 20, 30]);
    assert_eq!(nn_set_input(&mut env, &memory, 2, 0, 8), 0);
    assert_eq!(nn_compute(&mut env, 2), 0);
    assert_eq!(nn_get_output(&env, &mut memory, 2, 0, 64, 3, 80), 0);
    assert_eq!(memory.read_bytes(64, 3).unwrap(), vec![30, 20, 10]);
    assert_eq!(read_u32(&memory, 80), 3);
}

#[test]
fn get_output_respects_the_buffer() {
    let (mut env, mut memory) = with_context();
    write(&mut memory, 8, &pack_tensor(40, 0, 4, 44, 3));
    write(&mut memory, 44, &[1, 2, 3]);
    assert_eq!(nn_set_input(&mut env, &memory, 2, 0, 8), 0);
    let before = memory.read_bytes(0, 128).unwrap();
    let too_large = NnErrno::TooLarge.to_u32();
    assert_eq!(nn_get_output(&env, &mut memory, 2, 0, 64, 2, 80), too_large);
    let missing = NnErrno::MissingMemory.to_u32();
    assert_eq!(nn_get_output(&env, &mut memory, 2, 0, 126, 3, 80), missing);
    let invalid = NnErrno::InvalidArgument.to_u32();
    assert_eq!(nn_get_output(&env, &mut memory, 2, 1, 64, 3, 80), invalid);
    let not_found = NnErrno::NotFound.to_u32();
    assert_eq!(nn_get_output(&env, &mut memory, 1, 0, 64, 3, 80), not_found);
    assert_eq!(memory.read_bytes(0, 128).unwrap(), before);
    // The bytes are written before their number.
    assert_eq!(nn_get_output(&env, &mut memory, 2, 0, 64, 3, 125), missing);
    assert_eq!(memory.read_bytes(64, 3).unwrap(), vec![1, 2, 3]);
}

#[test]
fn outputs_graphs_and_contexts_are_delivered() {
    let mut memory = GuestMemory::new(vec![0; 16]);
    assert_eq!(deliver_output(&mut memory, Ok(vec![1, 2]), 0, 2, 4), Ok(()));
    assert_eq!(memory.read_bytes(0, 8).unwrap(), vec![1, 2, 0, 0, 2, 0, 0, 0]);
    let busy = Err(NnErrno::Busy);
    assert_eq!(deliver_output(&mut memory, busy, 0, 2, 4), Err(NnErrno::Busy));

    let mut nn: NnState<u8, char> = NnState::default();
    assert_eq!(deliver_graph(&mut nn, &mut memory, Ok(9), 8), Ok(()));
    assert_eq!(deliver_graph(&mut nn, &mut memory, Err(NnErrno::Busy), 8), Err(NnErrno::Busy));
    assert_eq!(nn.graph(memory.read_u32(8).unwrap()), Some(&9));
    assert_eq!(deliver_context(&mut nn, &mut memory, Ok('c'), 12), Ok(()));
    assert_eq!(
        deliver_context(&mut nn, &mut memory, Err(NnErrno::Busy), 12),
        Err(NnErrno::Busy)
    );
    assert_eq!(nn.context(memory.read_u32(12).unwrap()), Some(&'c'));
}

#[test]
fn records_are_read_from_guest_memory() {
    let mut memory = GuestMemory::new(vec![0; 64]);
    write(&mut memory, 0, &pack_graph_builder(40, 3));
    write(&mut memory, 40, &[5, 6, 7]);
    let builders = read_builders(&memory, 0, 1).unwrap();
    assert_eq!((builders[0].ptr, builders[0].len), (40, 3));
    assert!(read_builders(&memory, 57, 1).is_err());
    assert_eq!(read_blobs(&memory, 0, 1).unwrap(), vec![vec![5, 6, 7]]);
    assert_eq!(read_blobs(&memory, 60, 1).unwrap_err(), NnErrno::MissingMemory);

    write(&mut memory, 8, &pack_tensor(44, 2, 5, 40, 3));
    write(&mut memory, 44, &[1, 0, 0, 0, 0, 1, 0, 0]);
    let record = read_tensor_record(&memory, 8).unwrap();
    assert_eq!((record.dimensions_ptr, record.dimensions_len, record.ty), (44, 2, 5));
    assert_eq!((record.data_ptr, record.data_len), (40, 3));
    let tensor = read_tensor(&memory, 8).unwrap();
    assert_eq!(tensor.dimensions, vec![1, 256]);
    assert_eq!(tensor.ty, TensorType::I64);
    assert_eq!(tensor.data, vec![5, 6, 7]);

    let capability = CapabilityNnV1 { allow: true, allow_gpu: true, max_model_bytes: None };
    let request = load_request(&capability, &memory, 0, 1, 0, 1).unwrap();
    assert_eq!(request.blobs, vec![vec![5, 6, 7]]);
    assert_eq!((request.encoding, request.target), (GraphEncoding::Openvino, ExecutionTarget::Gpu));
}
