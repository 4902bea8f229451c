use candle_core::Tensor as CTensor;
use wasi_nn_host::backend::{NnExecutionContext, NnGraph};
use wasi_nn_host::candle::backend::{
    resolve_layers, CandleBackend, Layer, LayerConfig, LayerStackGraph, ModelConfig,
};
use wasi_nn_host::candle::fold::folding;
use wasi_nn_host::candle::header::{can_measure, sizes_fit};
use wasi_nn_host::candle::load::load_decoded;
use wasi_nn_host::candle::run::LayerStackExecutionContext;
use wasi_nn_host::candle::shape::{can_add, can_allocate, can_multiply, element_count, joint_dims};
use wasi_nn_host::memory::GuestMemory;
use wasi_nn_host::state::nn::NnState;
use wasi_nn_host::syscalls::wasi_nn::load::LoadRequest;
use wasi_nn_host::types::{ExecutionTarget, GraphEncoding, NnErrno, Tensor, TensorType};

/// A safetensors file with these tensors of single-precision floats.
fn safetensors(tensors: &[(&str, &[usize], &[f32])]) -> Vec<u8> {
    let mut header = String::from("{");
    let mut data: Vec<u8> = Vec::new();
    for (i, (name, shape, values)) in tensors.iter().enumerate() {
        let start = data.len();
        for value in values.iter() {
            data.extend_from_slice(&value.to_le_bytes());
        }
        let comma = if i == 0 { "" } else { "," };
        header.push_str(&format!(
            "{}\"{}\":{{\"dtype\":\"F32\",\"shape\":{:?},\"data_offsets\":[{},{}]}}",
            comma,
            name,
            shape,
            start,
            data.len()
        ));
    }
    header.push('}');
    let mut file = (header.len() as u64).to_le_bytes().to_vec();
    file.extend_from_slice(header.as_bytes());
    file.extend_from_slice(&data);
    file
}

/// What the JSON text of a model configuration says.
fn decode(bytes: &[u8]) -> Option<ModelConfig> {
    let value: serde_json::Value = serde_json::from_slice(bytes).ok()?;
    let mut layers = Vec::new();
    for layer in value.get("layers")?.as_array()? {
        layers.push(match layer.get("type")?.as_str()? {
            "linear" => LayerConfig::Linear {
                weight: layer.get("weight")?.as_str()?.to_string(),
                bias: layer.get("bias").and_then(|b| b.as_str()).map(|b| b.to_string()),
            },
            "relu" => LayerConfig::Relu,
            _ => return None,
        });
    }
    Some(ModelConfig { layers })
}

fn linear(weight: &str, bias: Option<&str>) -> LayerConfig {
    LayerConfig::Linear { weight: weight.to_string(), bias: bias.map(|b| b.to_string()) }
}

fn singles(values: &[f32]) -> Vec<u8> {
    values.iter().flat_map(|f| f.to_le_bytes()).collect()
}

fn floats(bytes: &[u8]) -> Vec<f32> {
    bytes.chunks_exact(4).map(|c| f32::from_le_bytes([c[0], c[1], c[2], c[3]])).collect()
}

fn tensor(dimensions: &[u32], values: &[f32]) -> Tensor {
    Tensor { dimensions: dimensions.to_vec(), ty: TensorType::F32, data: singles(values) }
}

/// A two-layer stack: 2 -> 3, clipped at zero, 3 -> 1.
fn tiny_mlp() -> (Vec<u8>, Vec<u8>) {
    let weights = safetensors(&[
        ("w0", &[3, 2], &[1.0, 0.0, 0.0, 1.0, 1.0, 1.0]),
        ("b0", &[3], &[0.0, 0.0, 1.0]),
        ("w1", &[1, 3], &[1.0, 1.0, 1.0]),
        ("b1", &[1], &[0.0]),
    ]);
    let config = br#"{
        "layers": [
            {"type": "linear", "weight": "w0", "bias": "b0"},
            {"type": "relu"},
            {"type": "linear", "weight": "w1", "bias": "b1"}
        ]
    }"#;
    (config.to_vec(), weights)
}

fn load(config: ModelConfig, weights: Vec<u8>) -> Result<LayerStackGraph, NnErrno> {
    CandleBackend::new().load(
        &[vec![], weights],
        GraphEncoding::Autodetect,
        ExecutionTarget::Cpu,
        Some(config),
    )
}

fn context(layers: Vec<LayerConfig>, weights: Vec<u8>) -> LayerStackExecutionContext {
    let graph = load(ModelConfig { layers }, weights).expect("load");
    graph.init_execution_context().expect("init context")
}

fn run(target: ExecutionTarget, input: [f32; 2]) -> f32 {
    let (config_bytes, weights_bytes) = tiny_mlp();
    let config = decode(&config_bytes);
    let backend = CandleBackend::new();
    let graph = backend
        .load(&[config_bytes, weights_bytes], GraphEncoding::Autodetect, target, config)
        .expect("load");
    let mut ctx = graph.init_execution_context().expect("init context");
    ctx.set_input(0, tensor(&[2], &input)).expect("set_input");
    ctx.compute().expect("compute");
    let output = ctx.get_output(0).expect("get_output");
    assert_eq!(output.len(), 4);
    f32::from_le_bytes(output.try_into().unwrap())
}

#[test]
fn runs_a_two_layer_mlp_end_to_end_on_cpu() {
    // [3,4] -> layer0 -> [3, 4, 8] -> relu -> [3, 4, 8] -> layer1 -> [15]
    assert_eq!(run(ExecutionTarget::Cpu, [3.0, 4.0]), 15.0);
}

#[test]
fn relu_actually_clips_negatives() {
    // [-5,-5] -> layer0 -> [-5, -5, -9] -> relu -> [0, 0, 0] -> layer1 -> [0]
    assert_eq!(run(ExecutionTarget::Cpu, [-5.0, -5.0]), 0.0);
}

#[test]
fn rejects_non_autodetect_encoding() {
    let backend = CandleBackend::new();
    let err = backend
        .load(&[vec![], vec![]], GraphEncoding::Onnx, ExecutionTarget::Cpu, decode(&[]))
        .unwrap_err();
    assert_eq!(err, NnErrno::InvalidEncoding);
}

#[test]
fn rejects_wrong_blob_count() {
    let backend = CandleBackend::new();
    let err = backend
        .load(&[vec![]], GraphEncoding::Autodetect, ExecutionTarget::Cpu, decode(&[]))
        .unwrap_err();
    assert_eq!(err, NnErrno::InvalidArgument);
}

#[test]
fn load_checks_in_order() {
    let backend = CandleBackend::new();
    let (config_bytes, weights) = tiny_mlp();
    let blobs = [config_bytes.clone(), weights];
    // The blob count comes before the target, and the target before the
    // configuration.
    let three = [vec![], vec![], vec![]];
    assert_eq!(
        backend.load(&three, GraphEncoding::Autodetect, ExecutionTarget::Gpu, None).unwrap_err(),
        NnErrno::InvalidArgument
    );
    for target in [ExecutionTarget::Gpu, ExecutionTarget::Tpu] {
        assert_eq!(
            backend.load(&blobs, GraphEncoding::Autodetect, target, None).unwrap_err(),
            NnErrno::UnsupportedOperation
        );
    }
    assert_eq!(
        backend.load(&blobs, GraphEncoding::Autodetect, ExecutionTarget::Cpu, None).unwrap_err(),
        NnErrno::InvalidArgument
    );
    let no_weights = [config_bytes.clone(), b"no safetensors file".to_vec()];
    assert_eq!(
        backend
            .load(
                &no_weights,
                GraphEncoding::Autodetect,
                ExecutionTarget::Cpu,
                decode(&config_bytes)
            )
            .unwrap_err(),
        NnErrno::RuntimeError
    );
}

#[test]
fn a_missing_tensor_is_a_runtime_error() {
    let weights = safetensors(&[("w", &[1, 1], &[2.0])]);
    let weight = load(ModelConfig { layers: vec![linear("v", None)] }, weights.clone());
    assert_eq!(weight.unwrap_err(), NnErrno::RuntimeError);
    let bias = load(ModelConfig { layers: vec![linear("w", Some("b"))] }, weights.clone());
    assert_eq!(bias.unwrap_err(), NnErrno::RuntimeError);
    let graph = load(ModelConfig { layers: vec![linear("w", None), LayerConfig::Relu] }, weights)
        .expect("load");
    assert_eq!(graph.layers().len(), 2);
}

#[test]
fn layers_are_resolved_by_name() {
    let cpu = candle_core::Device::Cpu;
    let entries: Vec<(String, CTensor)> = vec![
        ("b".to_string(), CTensor::from_vec(vec![7f32], 1, &cpu).unwrap()),
        ("w".to_string(), CTensor::from_vec(vec![1f32, 2.0], (1, 2), &cpu).unwrap()),
    ];
    let config = ModelConfig { layers: vec![LayerConfig::Relu, linear("w", Some("b"))] };
    let layers = resolve_layers(&entries, &config).expect("resolve");
    assert_eq!(layers.len(), 2);
    assert!(matches!(layers[0], Layer::Relu));
    match &layers[1] {
        Layer::Linear { weight, bias } => {
            assert_eq!(weight.dims(), &[1, 2]);
            assert_eq!(bias.as_ref().unwrap().to_vec1::<f32>().unwrap(), vec![7.0]);
        }
        Layer::Relu => unreachable!(),
    }
    let missing = ModelConfig { layers: vec![linear("x", None)] };
    assert_eq!(resolve_layers(&entries, &missing).unwrap_err(), NnErrno::RuntimeError);
}

#[test]
fn an_empty_stack_gives_the_input_back() {
    for dimensions in [vec![4u32], vec![2, 2], vec![1, 4, 1]] {
        let mut ctx = context(vec![], safetensors(&[]));
        ctx.set_input(0, tensor(&dimensions, &[1.5, -2.0, 0.0, 3.25])).expect("set_input");
        ctx.compute().expect("compute");
        let output = ctx.get_output(0).expect("get_output");
        assert_eq!(floats(&output), vec![1.5, -2.0, 0.0, 3.25]);
    }
}

#[test]
fn a_scalar_and_an_empty_tensor_pass_through() {
    let mut ctx = context(vec![LayerConfig::Relu], safetensors(&[]));
    ctx.set_input(0, tensor(&[], &[-4.0])).expect("set_input");
    ctx.compute().expect("compute");
    assert_eq!(floats(&ctx.get_output(0).unwrap()), vec![0.0]);
    ctx.set_input(0, tensor(&[0, 3], &[])).expect("set_input");
    ctx.compute().expect("compute");
    assert!(ctx.get_output(0).unwrap().is_empty());
}

#[test]
fn relu_keeps_positives_and_drops_what_is_no_number() {
    let mut ctx = context(vec![LayerConfig::Relu], safetensors(&[]));
    let input = [f32::NAN, f32::INFINITY, f32::NEG_INFINITY, 0.5, -0.5, 0.0];
    ctx.set_input(0, tensor(&[6], &input)).expect("set_input");
    ctx.compute().expect("compute");
    let output = floats(&ctx.get_output(0).unwrap());
    assert_eq!(output, vec![0.0, f32::INFINITY, 0.0, 0.5, 0.0, 0.0]);
}

#[test]
fn a_linear_layer_multiplies_by_the_transposed_weight() {
    // weight [[1,2,3],[4,5,6]]: [1,10,100] -> [321, 654]
    let weights = safetensors(&[("w", &[2, 3], &[1.0, 2.0, 3.0, 4.0, 5.0, 6.0])]);
    let mut ctx = context(vec![linear("w", None)], weights);
    ctx.set_input(0, tensor(&[3], &[1.0, 10.0, 100.0])).expect("set_input");
    ctx.compute().expect("compute");
    assert_eq!(floats(&ctx.get_output(0).unwrap()), vec![321.0, 654.0]);
}

#[test]
fn a_batch_gives_a_batch() {
    let weights = safetensors(&[("w", &[1, 2], &[1.0, -1.0]), ("b", &[1], &[10.0])]);
    let mut ctx = context(vec![linear("w", Some("b"))], weights);
    ctx.set_input(0, tensor(&[3, 2], &[1.0, 0.0, 0.0, 1.0, 5.0, 5.0])).expect("set_input");
    ctx.compute().expect("compute");
    assert_eq!(floats(&ctx.get_output(0).unwrap()), vec![11.0, 9.0, 10.0]);
}

#[test]
fn a_stack_of_matrices_broadcasts() {
    // Three extents in, three extents out: each matrix of rows is multiplied.
    let weights = safetensors(&[("w", &[1, 2], &[2.0, 3.0])]);
    let mut ctx = context(vec![linear("w", None)], weights);
    let input = [1.0, 0.0, 0.0, 1.0, 1.0, 1.0, 2.0, 2.0];
    ctx.set_input(0, tensor(&[2, 2, 2], &input)).expect("set_input");
    ctx.compute().expect("compute");
    assert_eq!(floats(&ctx.get_output(0).unwrap()), vec![2.0, 3.0, 5.0, 10.0]);
}

#[test]
fn a_run_that_does_not_fit_keeps_the_last_output() {
    let weights = safetensors(&[("w", &[1, 2], &[1.0, 1.0])]);
    let mut ctx = context(vec![linear("w", None)], weights);
    ctx.set_input(0, tensor(&[2], &[1.0, 2.0])).expect("set_input");
    ctx.compute().expect("compute");
    ctx.set_input(0, tensor(&[3], &[1.0, 2.0, 3.0])).expect("set_input");
    assert_eq!(ctx.compute().unwrap_err(), NnErrno::RuntimeError);
    assert_eq!(floats(&ctx.get_output(0).unwrap()), vec![3.0]);
}

#[test]
fn a_weight_that_is_no_matrix_is_a_runtime_error() {
    let weights = safetensors(&[("w", &[2], &[1.0, 1.0])]);
    let mut ctx = context(vec![linear("w", None)], weights);
    ctx.set_input(0, tensor(&[2], &[1.0, 2.0])).expect("set_input");
    assert_eq!(ctx.compute().unwrap_err(), NnErrno::RuntimeError);
}

#[test]
fn a_bias_that_does_not_broadcast_is_a_runtime_error() {
    let weights = safetensors(&[("w", &[2, 2], &[1.0; 4]), ("b", &[3], &[0.0; 3])]);
    let mut ctx = context(vec![linear("w", Some("b"))], weights);
    ctx.set_input(0, tensor(&[2], &[1.0, 2.0])).expect("set_input");
    assert_eq!(ctx.compute().unwrap_err(), NnErrno::RuntimeError);
}

#[test]
fn a_new_context_has_neither_input_nor_output() {
    let mut ctx = context(vec![], safetensors(&[]));
    assert_eq!(ctx.get_output(0).unwrap_err(), NnErrno::InvalidArgument);
    assert_eq!(ctx.compute().unwrap_err(), NnErrno::InvalidArgument);
}

#[test]
fn contexts_of_one_graph_are_independent() {
    let graph = load(ModelConfig { layers: vec![LayerConfig::Relu] }, safetensors(&[])).expect("load");
    let mut first = graph.init_execution_context().expect("init context");
    let mut second = graph.init_execution_context().expect("init context");
    first.set_input(0, tensor(&[1], &[1.0])).expect("set_input");
    first.compute().expect("compute");
    assert_eq!(second.compute().unwrap_err(), NnErrno::InvalidArgument);
    second.set_input(0, tensor(&[1], &[2.0])).expect("set_input");
    second.compute().expect("compute");
    assert_eq!(floats(&first.get_output(0).unwrap()), vec![1.0]);
    assert_eq!(floats(&second.get_output(0).unwrap()), vec![2.0]);
}

#[test]
fn set_input_refuses_what_it_cannot_take() {
    let mut ctx = context(vec![], safetensors(&[]));
    ctx.set_input(0, tensor(&[1], &[9.0])).expect("set_input");
    assert_eq!(
        ctx.set_input(1, tensor(&[1], &[1.0])).unwrap_err(),
        NnErrno::InvalidArgument
    );
    let halves = Tensor { dimensions: vec![1], ty: TensorType::F16, data: vec![0, 0] };
    assert_eq!(ctx.set_input(0, halves).unwrap_err(), NnErrno::UnsupportedOperation);
    assert_eq!(
        ctx.set_input(0, tensor(&[3], &[1.0, 2.0])).unwrap_err(),
        NnErrno::InvalidArgument
    );
    let odd = Tensor { dimensions: vec![1], ty: TensorType::F32, data: vec![0; 5] };
    assert_eq!(ctx.set_input(0, odd).unwrap_err(), NnErrno::InvalidArgument);
    let huge = Tensor { dimensions: vec![u32::MAX; 3], ty: TensorType::F32, data: vec![] };
    assert_eq!(ctx.set_input(0, huge).unwrap_err(), NnErrno::InvalidArgument);
    // Nothing of this touched the input that was set before.
    ctx.compute().expect("compute");
    assert_eq!(floats(&ctx.get_output(0).unwrap()), vec![9.0]);
    assert_eq!(ctx.get_output(1).unwrap_err(), NnErrno::InvalidArgument);
}

#[test]
fn an_input_stays_until_the_next_one() {
    let mut ctx = context(vec![LayerConfig::Relu], safetensors(&[]));
    ctx.set_input(0, tensor(&[1], &[4.0])).expect("set_input");
    ctx.compute().expect("compute");
    ctx.compute().expect("compute again");
    assert_eq!(floats(&ctx.get_output(0).unwrap()), vec![4.0]);
    // A new input does not change the output until it is computed.
    ctx.set_input(0, tensor(&[1], &[5.0])).expect("set_input");
    assert_eq!(floats(&ctx.get_output(0).unwrap()), vec![4.0]);
}

#[test]
fn shapes_are_counted_and_broadcast() {
    assert_eq!(element_count(&vec![]), Some(1));
    assert_eq!(element_count(&vec![2, 3, 4]), Some(24));
    assert_eq!(element_count(&vec![0, 5]), Some(0));
    assert_eq!(element_count(&vec![usize::MAX, 2]), None);
    assert_eq!(element_count(&vec![0, usize::MAX, 2]), None);
    assert!(can_allocate(&vec![1024, 1024], true));
    assert!(can_allocate(&vec![1024, 1024], false));
    assert!(!can_allocate(&vec![usize::MAX], true));
    // Single-precision floats have four bytes each, other elements up to eight.
    let most = isize::MAX as usize / 4;
    assert!(can_allocate(&vec![most], true));
    assert!(!can_allocate(&vec![most + 1], true));
    assert!(!can_allocate(&vec![most], false));
    assert!(can_allocate(&vec![most / 2], false));
    assert!(can_add(&vec![most, 1], &vec![1]));
    assert!(!can_add(&vec![most + 1, 1], &vec![1]));
    assert!(can_multiply(&vec![1, most], &vec![most, 1], true, true));
    assert!(!can_multiply(&vec![1, most], &vec![most, 1], true, false));
    assert_eq!(joint_dims(&[2, 1, 3], &[4, 1]), Some(vec![2, 4, 3]));
    assert_eq!(joint_dims(&[2], &[3]), None);
    assert_eq!(joint_dims(&[], &[3]), Some(vec![3]));
    assert!(can_add(&vec![2, 3], &vec![3]));
    assert!(can_add(&vec![2], &vec![3]));
    assert!(!can_add(&vec![usize::MAX, 1], &vec![1, usize::MAX]));
    assert!(can_add(&vec![1; 8], &vec![2; 8]));
    assert!(!can_add(&vec![1; 9], &vec![2; 9]));
    assert!(can_add(&vec![1; 9], &vec![0; 9]));
    assert!(can_multiply(&vec![2, 3], &vec![3, 4], true, true));
    assert!(can_multiply(&vec![2, 3], &vec![2, 4], true, true));
    assert!(can_multiply(&vec![2], &vec![2, 4], false, true));
    assert!(!can_multiply(&vec![usize::MAX, 0], &vec![0, usize::MAX], true, true));
    // One matrix on the right is not spread over a stack stored in order.
    let stack = vec![1 << 31, 1 << 20, 0, 1024];
    assert!(can_multiply(&stack, &vec![1024, 1], true, true));
    assert!(!can_multiply(&stack, &vec![1024, 1], false, true));
}

fn file_with_header(header: &str) -> Vec<u8> {
    let mut file = (header.len() as u64).to_le_bytes().to_vec();
    file.extend_from_slice(header.as_bytes());
    file
}

#[test]
fn a_header_whose_sizes_do_not_fit_is_a_runtime_error() {
    // Eight tensors whose ends add up to the largest machine word.
    let extent: u64 = 2305843009213693951;
    let mut header = String::from("{");
    for i in 0..8u64 {
        let comma = if i == 0 { "" } else { "," };
        header.push_str(&format!(
            "{}\"t{}\":{{\"dtype\":\"U8\",\"shape\":[{}],\"data_offsets\":[{},{}]}}",
            comma,
            i,
            extent,
            i * extent,
            (i + 1) * extent
        ));
    }
    header.push('}');
    let ends_beyond = file_with_header(&header);
    // No elements, but extents that cannot be multiplied up.
    let uncountable = file_with_header(
        r#"{"w":{"dtype":"F32","shape":[0,4294967296,4294967296],"data_offsets":[0,0]}}"#,
    );
    for file in [ends_beyond, uncountable] {
        assert!(!can_measure(&file));
        let loaded = load(ModelConfig { layers: vec![] }, file);
        assert_eq!(loaded.unwrap_err(), NnErrno::RuntimeError);
    }
}

#[test]
fn files_are_measured_by_their_headers() {
    // What has no readable header has no sizes that do not fit.
    for file in [vec![], vec![0; 7], vec![255; 8], file_with_header("no json")] {
        assert!(can_measure(&file));
        let loaded = load(ModelConfig { layers: vec![] }, file);
        assert_eq!(loaded.unwrap_err(), NnErrno::RuntimeError);
    }
    let good = safetensors(&[("w", &[2, 0, 3], &[]), ("v", &[2], &[1.0, 2.0])]);
    assert!(can_measure(&good));
    assert!(load(ModelConfig { layers: vec![] }, good.clone()).is_ok());
    // A tensor that ends behind the end of the file.
    let short = good[..good.len() - 1].to_vec();
    assert!(!can_measure(&short));
    assert_eq!(
        load(ModelConfig { layers: vec![] }, short).unwrap_err(),
        NnErrno::RuntimeError
    );
    assert!(sizes_fit(8, &vec![vec![2], vec![]], 8));
    assert!(!sizes_fit(9, &vec![], 8));
    assert!(!sizes_fit(0, &vec![vec![0, usize::MAX, 2]], 8));
}

#[test]
fn a_sum_along_nine_extents_is_a_runtime_error() {
    let weights = safetensors(&[
        ("w", &[2, 2], &[1.0, 0.0, 0.0, 1.0]),
        ("b", &[2, 1, 2, 1, 2, 1, 2, 1, 2], &[0.5; 32]),
        ("c", &[2, 1, 2, 1, 2, 1, 2], &[0.5; 16]),
    ]);
    let mut ctx = context(vec![linear("w", Some("b"))], weights.clone());
    ctx.set_input(0, tensor(&[2; 9], &[1.0; 512])).expect("set_input");
    assert_eq!(ctx.compute().unwrap_err(), NnErrno::RuntimeError);
    // Eight extents can be added.
    let mut ctx = context(vec![linear("w", Some("c"))], weights);
    ctx.set_input(0, tensor(&[2; 8], &[1.0; 256])).expect("set_input");
    ctx.compute().expect("compute");
    assert_eq!(floats(&ctx.get_output(0).unwrap()), vec![1.5; 256]);
}

#[test]
fn alike_extents_are_added_together() {
    // The bias is broadcast along all extents but the last.
    let weights = safetensors(&[
        ("w", &[2, 2], &[1.0, 0.0, 0.0, 1.0]),
        ("b", &[2], &[10.0, 20.0]),
        ("c", &[2, 1, 1, 1, 1, 1, 1, 1, 2], &[10.0, 20.0, 30.0, 40.0]),
        ("d", &[2, 2, 2, 1, 1, 1, 1, 1, 2], &[0.5; 16]),
    ]);
    let values: Vec<f32> = (0..16).map(|i| i as f32).collect();
    let extents = [2, 2, 2, 1, 1, 1, 1, 1, 2];
    let mut ctx = context(vec![linear("w", Some("b"))], weights.clone());
    ctx.set_input(0, tensor(&extents, &values)).expect("set_input");
    ctx.compute().expect("compute");
    let expected: Vec<f32> = (0..16).map(|i| i as f32 + [10.0, 20.0][i % 2]).collect();
    assert_eq!(floats(&ctx.get_output(0).unwrap()), expected);
    // The bias is broadcast along the extents in the middle.
    let mut ctx = context(vec![linear("w", Some("c"))], weights.clone());
    ctx.set_input(0, tensor(&extents, &values)).expect("set_input");
    ctx.compute().expect("compute");
    let expected: Vec<f32> =
        (0..16).map(|i| i as f32 + [10.0, 20.0, 30.0, 40.0][i / 8 * 2 + i % 2]).collect();
    assert_eq!(floats(&ctx.get_output(0).unwrap()), expected);
    // Nothing is broadcast, and another layer follows.
    let mut ctx = context(vec![linear("w", Some("d")), linear("w", Some("b"))], weights);
    ctx.set_input(0, tensor(&extents, &values)).expect("set_input");
    ctx.compute().expect("compute");
    let first = ctx.get_output(0).unwrap();
    let expected: Vec<f32> = (0..16).map(|i| i as f32 + [10.5, 20.5][i % 2]).collect();
    assert_eq!(floats(&first), expected);
    ctx.compute().expect("compute again");
    assert_eq!(ctx.get_output(0).unwrap().len(), first.len());
}

#[test]
fn a_bias_with_more_extents_widens_the_sum() {
    let weights = safetensors(&[
        ("w", &[2, 2], &[1.0, 0.0, 0.0, 1.0]),
        ("b", &[2, 1, 1, 1, 1, 1, 1, 1, 1], &[10.0, 20.0]),
    ]);
    let mut ctx = context(vec![linear("w", Some("b"))], weights);
    ctx.set_input(0, tensor(&[1, 2], &[1.0, 2.0])).expect("set_input");
    ctx.compute().expect("compute");
    assert_eq!(floats(&ctx.get_output(0).unwrap()), vec![11.0, 12.0, 21.0, 22.0]);
}

#[test]
fn shapes_fold() {
    let folded = folding(&vec![2, 3, 1, 4, 5], &vec![5]).unwrap();
    assert_eq!((folded.left, folded.right), (vec![24, 5], vec![1, 5]));
    assert_eq!(folded.sum, vec![2, 3, 1, 4, 5]);
    let folded = folding(&vec![2, 3, 1, 1], &vec![1, 1, 4, 5]).unwrap();
    assert_eq!((folded.left, folded.right), (vec![6, 1], vec![1, 20]));
    assert_eq!(folded.sum, vec![2, 3, 4, 5]);
    let folded = folding(&vec![2, 3], &vec![2, 3]).unwrap();
    assert_eq!((folded.left, folded.right), (vec![6], vec![6]));
    let folded = folding(&vec![1, 1], &vec![1]).unwrap();
    assert_eq!((folded.left, folded.right), (vec![], vec![]));
    assert_eq!(folded.sum, vec![1, 1]);
    assert!(folding(&vec![2], &vec![3]).is_none());
    assert!(folding(&vec![2, 0], &vec![1]).is_none());
    assert!(folding(&vec![usize::MAX, 1], &vec![1, usize::MAX]).is_none());
    assert!(folding(&vec![2; 9], &vec![2, 1, 2, 1, 2, 1, 2, 1, 2]).is_none());
    assert!(folding(&vec![2; 9], &vec![2, 1, 2, 1, 2, 1, 2, 1, 1]).is_some());
}

#[test]
fn parameters_of_other_element_types_are_runtime_errors() {
    let header = "{\"w\":{\"dtype\":\"F64\",\"shape\":[1,2],\"data_offsets\":[0,16]},\
        \"b\":{\"dtype\":\"F64\",\"shape\":[1],\"data_offsets\":[16,24]},\
        \"s\":{\"dtype\":\"F32\",\"shape\":[1,2],\"data_offsets\":[24,32]}}";
    let mut file = file_with_header(header);
    for value in [1.0f64, 2.0, 3.0] {
        file.extend_from_slice(&value.to_le_bytes());
    }
    file.extend_from_slice(&singles(&[1.0, 2.0]));
    let mut ctx = context(vec![linear("w", None)], file.clone());
    ctx.set_input(0, tensor(&[2], &[1.0, 2.0])).expect("set_input");
    assert_eq!(ctx.compute().unwrap_err(), NnErrno::RuntimeError);
    let mut ctx = context(vec![linear("s", Some("b"))], file.clone());
    ctx.set_input(0, tensor(&[2], &[1.0, 2.0])).expect("set_input");
    assert_eq!(ctx.compute().unwrap_err(), NnErrno::RuntimeError);
    let extents = [2, 1, 1, 1, 1, 1, 1, 1, 2];
    ctx.set_input(0, tensor(&extents, &[1.0; 4])).expect("set_input");
    assert_eq!(ctx.compute().unwrap_err(), NnErrno::RuntimeError);
    let mut ctx = context(vec![linear("s", None)], file);
    ctx.set_input(0, tensor(&[2], &[1.0, 2.0])).expect("set_input");
    ctx.compute().expect("compute");
    assert_eq!(floats(&ctx.get_output(0).unwrap()), vec![5.0]);
}

#[test]
fn a_large_empty_stack_gives_an_empty_output() {
    let weights = safetensors(&[("w", &[1, 1024], &[1.0; 1024])]);
    let mut ctx = context(vec![linear("w", None)], weights);
    ctx.set_input(0, tensor(&[2147483648, 1048576, 0, 1024], &[])).expect("set_input");
    ctx.compute().expect("compute");
    assert!(ctx.get_output(0).unwrap().is_empty());
}

#[test]
fn a_second_run_gives_the_same_output() {
    let (config_bytes, weights) = tiny_mlp();
    let graph = load(decode(&config_bytes).unwrap(), weights).expect("load");
    let mut ctx = graph.init_execution_context().expect("init context");
    ctx.set_input(0, tensor(&[2], &[3.0, 4.0])).expect("set_input");
    ctx.compute().expect("compute");
    let first = ctx.get_output(0).unwrap();
    ctx.compute().expect("compute again");
    assert_eq!(ctx.get_output(0).unwrap(), first);
}

#[test]
fn a_decoded_graph_is_loaded_for_the_guest() {
    let (config_bytes, weights) = tiny_mlp();
    let config = decode(&config_bytes);
    let mut memory = GuestMemory::new(vec![0; 8]);
    let mut nn: NnState<LayerStackGraph, LayerStackExecutionContext> = NnState::default();
    let request = |encoding: GraphEncoding| LoadRequest {
        blobs: vec![config_bytes.clone(), weights.clone()],
        encoding,
        target: ExecutionTarget::Cpu,
    };
    let refused =
        load_decoded(&mut nn, &mut memory, &request(GraphEncoding::Onnx), config.clone(), 4);
    assert_eq!(refused, Err(NnErrno::InvalidEncoding));
    let undecoded =
        load_decoded(&mut nn, &mut memory, &request(GraphEncoding::Autodetect), None, 4);
    assert_eq!(undecoded, Err(NnErrno::InvalidArgument));
    assert_eq!(nn.graph_count(), 0);
    assert_eq!(memory.read_u32(4), Ok(0));
    let loaded = load_decoded(
        &mut nn,
        &mut memory,
        &request(GraphEncoding::Autodetect),
        config.clone(),
        4,
    );
    assert_eq!(loaded, Ok(()));
    assert_eq!(memory.read_u32(4), Ok(1));
    assert_eq!(nn.graph(1).unwrap().layers().len(), 3);
    let outside =
        load_decoded(&mut nn, &mut memory, &request(GraphEncoding::Autodetect), config, 5);
    assert_eq!(outside, Err(NnErrno::MissingMemory));
    assert_eq!(nn.graph_count(), 2);
}
