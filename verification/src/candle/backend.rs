//! Loading a layer stack and running it.
//!
//! `$graph_encoding` has no value for a model of this engine, so only
//! `Autodetect` is accepted, and a graph comes as two blobs: a [`ModelConfig`],
//! which lists the layers in order and names the tensors that each one needs,
//! and a safetensors file that holds the named tensors.

use candle_core::Tensor as CTensor;
use vstd::prelude::*;

use super::header::can_measure;
use super::ops::{Device, TensorData};
use crate::types::{ExecutionTarget, GraphEncoding, NnErrno};

verus! {

/// One layer, naming the tensors that it reads its parameters from.
#[derive(Debug, Clone)]
pub enum LayerConfig {
    /// `y = x @ weight^T (+ bias)`.
    Linear { weight: String, bias: Option<String> },
    /// Every element clipped at zero.
    Relu,
}

/// What a [`LayerConfig`] holds.
pub enum LayerConfigView {
    Linear { weight: Seq<char>, bias: Option<Seq<char>> },
    Relu,
}

impl View for LayerConfig {
    type V = LayerConfigView;

    open spec fn view(&self) -> LayerConfigView {
        match self {
            LayerConfig::Linear { weight, bias } => LayerConfigView::Linear {
                weight: weight@,
                bias: match bias {
                    Some(name) => Some(name@),
                    None => None,
                },
            },
            LayerConfig::Relu => LayerConfigView::Relu,
        }
    }
}

/// The layers of a model, in order.
#[derive(Debug, Clone)]
pub struct ModelConfig {
    pub layers: Vec<LayerConfig>,
}

impl View for ModelConfig {
    type V = Seq<LayerConfigView>;

    open spec fn view(&self) -> Seq<LayerConfigView> {
        self.layers@.map_values(|layer: LayerConfig| layer@)
    }
}

/// One layer with its parameters.
#[derive(Debug)]
pub enum Layer {
    Linear { weight: CTensor, bias: Option<CTensor> },
    Relu,
}

/// What a [`Layer`] holds.
pub enum LayerData {
    Linear { weight: TensorData, bias: Option<TensorData> },
    Relu,
}

impl View for Layer {
    type V = LayerData;

    open spec fn view(&self) -> LayerData {
        match self {
            Layer::Linear { weight, bias } => LayerData::Linear {
                weight: super::ops::data(*weight),
                bias: match bias {
                    Some(bias) => Some(super::ops::data(*bias)),
                    None => None,
                },
            },
            Layer::Relu => LayerData::Relu,
        }
    }
}

/// What a stack of layers holds.
pub open spec fn stack(layers: Seq<Layer>) -> Seq<LayerData> {
    layers.map_values(|layer: Layer| layer@)
}

/// The layer that `config` describes, if `weights` has the tensors that it
/// names.
pub open spec fn layer_of(weights: Map<Seq<char>, TensorData>, config: LayerConfigView) -> Option<LayerData> {
    match config {
        LayerConfigView::Relu => Some(LayerData::Relu),
        LayerConfigView::Linear { weight, bias } => if !weights.contains_key(weight) {
            None
        } else {
            match bias {
                None => Some(LayerData::Linear { weight: weights[weight], bias: None }),
                Some(bias) => if weights.contains_key(bias) {
                    Some(LayerData::Linear { weight: weights[weight], bias: Some(weights[bias]) })
                } else {
                    None
                },
            }
        },
    }
}

/// The layers that `config` describes, if `weights` has every tensor that they
/// name.
pub open spec fn layers_of(weights: Map<Seq<char>, TensorData>, config: Seq<LayerConfigView>) -> Option<
    Seq<LayerData>,
> {
    if forall|i: int| 0 <= i < config.len() ==> layer_of(weights, #[trigger] config[i]) is Some {
        Some(config.map_values(|layer: LayerConfigView| layer_of(weights, layer)->0))
    } else {
        None
    }
}

/// The device that a target stands for.
pub open spec fn device_of(target: ExecutionTarget) -> Result<Device, NnErrno> {
    match target {
        ExecutionTarget::Cpu => Ok(Device::Cpu),
        ExecutionTarget::Gpu => Err(NnErrno::UnsupportedOperation),
        ExecutionTarget::Tpu => Err(NnErrno::UnsupportedOperation),
    }
}

/// The layers that a request for a graph loads, or why there are none. `config`
/// is what the first blob decodes to, if it does.
pub open spec fn loaded(
    builders: Seq<Seq<u8>>,
    encoding: GraphEncoding,
    target: ExecutionTarget,
    config: Option<Seq<LayerConfigView>>,
) -> Result<Seq<LayerData>, NnErrno> {
    if encoding != GraphEncoding::Autodetect {
        Err(NnErrno::InvalidEncoding)
    } else if builders.len() != 2 {
        Err(NnErrno::InvalidArgument)
    } else {
        match (device_of(target), config) {
            (Err(errno), _) => Err(errno),
            (Ok(_), None) => Err(NnErrno::InvalidArgument),
            (Ok(_), Some(config)) => match weights_from(builders[1]) {
                None => Err(NnErrno::RuntimeError),
                Some(weights) => match layers_of(weights, config) {
                    None => Err(NnErrno::RuntimeError),
                    Some(layers) => Ok(layers),
                },
            },
        }
    }
}

/// The named tensors of a safetensors file, if it is one and the sizes in its
/// header can be reckoned with.
pub open spec fn weights_from(file: Seq<u8>) -> Option<Map<Seq<char>, TensorData>> {
    if super::ops::measurable(file) {
        super::ops::weights_in(file)
    } else {
        None
    }
}

/// The parameters of a layer are stored in row-major order, and have as many
/// elements as their shapes say, where they are single-precision floats.
pub open spec fn layer_sound(layer: LayerData) -> bool {
    match layer {
        LayerData::Relu => true,
        LayerData::Linear { weight, bias } => {
            &&& weight.row_major
            &&& weight.single ==> weight.sound()
            &&& match bias {
                None => true,
                Some(bias) => bias.row_major && (bias.single ==> bias.sound()),
            }
        },
    }
}

/// What the first entry of that name holds, from place `from` on.
pub open spec fn entry_from(entries: Seq<(String, CTensor)>, name: Seq<char>, from: int) -> Option<TensorData>
    decreases entries.len() - from,
{
    if from < 0 || from >= entries.len() {
        None
    } else if entries[from].0@ == name {
        Some(super::ops::data(entries[from].1))
    } else {
        entry_from(entries, name, from + 1)
    }
}

/// What each name in a list of entries stands for: what the first entry of that
/// name holds.
pub open spec fn weights_of(entries: Seq<(String, CTensor)>) -> Map<Seq<char>, TensorData> {
    Map::new(
        |name: Seq<char>| entry_from(entries, name, 0) is Some,
        |name: Seq<char>| entry_from(entries, name, 0)->0,
    )
}

/// What an entry holds is what some entry of that name holds, and a name
/// without an entry stands for nothing.
proof fn lemma_entry_from(entries: Seq<(String, CTensor)>, name: Seq<char>, from: int)
    requires
        0 <= from,
    ensures
        match entry_from(entries, name, from) {
            Some(held) => exists|i: int|
                from <= i < entries.len() && #[trigger] entries[i].0@ == name && super::ops::data(entries[i].1)
                    == held,
            None => forall|i: int| from <= i < entries.len() ==> #[trigger] entries[i].0@ != name,
        },
    decreases entries.len() - from,
{
    if from < entries.len() && entries[from].0@ != name {
        lemma_entry_from(entries, name, from + 1);
    }
}

/// The entries of a file stand for its named tensors.
proof fn lemma_listed_weights(entries: Seq<(String, CTensor)>, weights: Map<Seq<char>, TensorData>)
    requires
        super::ops::lists(entries, weights),
    ensures
        weights_of(entries) == weights,
{
    assert forall|name: Seq<char>|
        #![trigger weights_of(entries).contains_key(name)]
        #![trigger weights.contains_key(name)]
        weights_of(entries).contains_key(name) == weights.contains_key(name) && (weights.contains_key(name)
            ==> weights_of(entries)[name] == weights[name]) by {
        lemma_entry_from(entries, name, 0);
        match entry_from(entries, name, 0) {
            Some(held) => {
                let i = choose|i: int|
                    0 <= i < entries.len() && #[trigger] entries[i].0@ == name && super::ops::data(
                        entries[i].1,
                    ) == held;
                assert(weights.contains_key(entries[i].0@));
            },
            None => {
                if weights.contains_key(name) {
                    let i = choose|i: int| 0 <= i < entries.len() && #[trigger] entries[i].0@ == name;
                    assert(entries[i].0@ != name);
                }
            },
        }
    }
    assert(weights_of(entries) =~= weights);
}

/// The tensor of the first entry of that name.
fn find_weight(entries: &Vec<(String, CTensor)>, name: &String) -> (result: Option<CTensor>)
    ensures
        match result {
            Some(tensor) => entry_from(entries@, name@, 0) == Some(super::ops::data(tensor)),
            None => entry_from(entries@, name@, 0) is None,
        },
{
    let mut i: usize = 0;
    while i < entries.len()
        invariant
            i <= entries.len(),
            entry_from(entries@, name@, 0) == entry_from(entries@, name@, i as int),
        decreases entries.len() - i,
    {
        if entries[i].0 == *name {
            return Some(super::ops::share(&entries[i].1));
        }
        i += 1;
    }
    None
}

/// Layers that are made of sound tensors are sound.
proof fn lemma_layers_sound(entries: Seq<(String, CTensor)>, config: Seq<LayerConfigView>, layers: Seq<LayerData>)
    requires
        forall|i: int|
            0 <= i < entries.len() ==> {
                &&& super::ops::stored_in_order((#[trigger] entries[i]).1)
                &&& super::ops::holds_singles(entries[i].1) ==> super::ops::data(entries[i].1).sound()
            },
        layers_of(weights_of(entries), config) == Some(layers),
    ensures
        forall|i: int| 0 <= i < layers.len() ==> layer_sound(#[trigger] layers[i]),
{
    let weights = weights_of(entries);
    assert forall|name: Seq<char>| #[trigger]
        weights.contains_key(name) implies weights[name].row_major && (weights[name].single
        ==> weights[name].sound()) by {
        lemma_entry_from(entries, name, 0);
    }
    assert forall|i: int| 0 <= i < layers.len() implies layer_sound(#[trigger] layers[i]) by {
        assert(layer_of(weights, config[i]) is Some);
        match config[i] {
            LayerConfigView::Relu => {},
            LayerConfigView::Linear { weight, bias } => {
                assert(weights.contains_key(weight));
                if let Some(bias) = bias {
                    assert(weights.contains_key(bias));
                }
            },
        }
    }
}

/// Looks up the tensors that one layer names.
fn resolve_layer(entries: &Vec<(String, CTensor)>, config: &LayerConfig) -> (result: Option<Layer>)
    ensures
        match result {
            Some(layer) => layer_of(weights_of(entries@), config@) == Some(layer@),
            None => layer_of(weights_of(entries@), config@) is None,
        },
{
    match config {
        LayerConfig::Relu => Some(Layer::Relu),
        LayerConfig::Linear { weight, bias } => {
            let weight = match find_weight(entries, weight) {
                Some(weight) => weight,
                None => return None,
            };
            match bias {
                None => Some(Layer::Linear { weight, bias: None }),
                Some(bias) => match find_weight(entries, bias) {
                    Some(bias) => Some(Layer::Linear { weight, bias: Some(bias) }),
                    None => None,
                },
            }
        },
    }
}

/// Looks up the tensors that the layers of a model name.
pub fn resolve_layers(entries: &Vec<(String, CTensor)>, config: &ModelConfig) -> (result: Result<
    Vec<Layer>,
    NnErrno,
>)
    ensures
        match result {
            Ok(layers) => layers_of(weights_of(entries@), config@) == Some(stack(layers@)),
            Err(errno) => errno == NnErrno::RuntimeError && layers_of(weights_of(entries@), config@) is None,
        },
{
    let ghost weights = weights_of(entries@);
    let mut layers: Vec<Layer> = Vec::with_capacity(config.layers.len());
    let mut i: usize = 0;
    while i < config.layers.len()
        invariant
            i <= config.layers.len(),
            weights == weights_of(entries@),
            layers@.len() == i,
            forall|j: int| 0 <= j < i ==> layer_of(weights, #[trigger] config@[j]) == Some(layers@[j]@),
        decreases config.layers.len() - i,
    {
        match resolve_layer(entries, &config.layers[i]) {
            Some(layer) => layers.push(layer),
            None => {
                assert(layer_of(weights, config@[i as int]) is None);
                return Err(NnErrno::RuntimeError);
            },
        }
        i += 1;
    }
    assert(layers_of(weights, config@)->0 =~= stack(layers@));
    Ok(layers)
}

/// The engine.
#[derive(Debug, Default, Clone, Copy)]
pub struct CandleBackend;

impl CandleBackend {
    pub fn new() -> (backend: CandleBackend)
        ensures
            backend == CandleBackend,
    {
        CandleBackend
    }

    /// The device for a target.
    fn device_for(target: ExecutionTarget) -> (result: Result<Device, NnErrno>)
        ensures
            result == device_of(target),
    {
        match target {
            ExecutionTarget::Cpu => Ok(Device::Cpu),
            ExecutionTarget::Gpu => Self::cuda_device(),
            ExecutionTarget::Tpu => Err(NnErrno::UnsupportedOperation),
        }
    }

    /// The CUDA device. There is none: the engine is built without CUDA.
    fn cuda_device() -> (result: Result<Device, NnErrno>)
        ensures
            result == Err::<Device, NnErrno>(NnErrno::UnsupportedOperation),
    {
        Err(NnErrno::UnsupportedOperation)
    }

    /// Loads a graph from two blobs, of which `config` is what the first decodes
    /// to, if it does. The second is a safetensors file.
    pub fn load(
        &self,
        builders: &[Vec<u8>],
        encoding: GraphEncoding,
        target: ExecutionTarget,
        config: Option<ModelConfig>,
    ) -> (result: Result<LayerStackGraph, NnErrno>)
        ensures
            loaded(
                crate::backend::blob_views(builders@),
                encoding,
                target,
                match config {
                    Some(config) => Some(config@),
                    None => None,
                },
            ) == (match result {
                Ok(graph) => Ok(graph@),
                Err(errno) => Err(errno),
            }),
            result is Ok ==> forall|i: int|
                0 <= i < result->Ok_0@.len() ==> layer_sound(#[trigger] result->Ok_0@[i]),
    {
        if encoding != GraphEncoding::Autodetect {
            return Err(NnErrno::InvalidEncoding);
        }
        if builders.len() != 2 {
            return Err(NnErrno::InvalidArgument);
        }
        let device = match Self::device_for(target) {
            Ok(device) => device,
            Err(errno) => return Err(errno),
        };
        let config = match config {
            Some(config) => config,
            None => return Err(NnErrno::InvalidArgument),
        };
        let file: &[u8] = builders[1].as_slice();
        if !can_measure(file) {
            return Err(NnErrno::RuntimeError);
        }
        let entries = match super::ops::load_weights(file, device) {
            Ok(entries) => entries,
            Err(_) => return Err(NnErrno::RuntimeError),
        };
        proof {
            lemma_listed_weights(entries@, super::ops::weights_in(builders@[1]@)->0);
        }
        match resolve_layers(&entries, &config) {
            Ok(layers) => {
                proof {
                    lemma_layers_sound(entries@, config@, stack(layers@));
                }
                Ok(LayerStackGraph { layers, device })
            },
            Err(errno) => Err(errno),
        }
    }
}

/// A loaded layer stack.
#[derive(Debug)]
pub struct LayerStackGraph {
    layers: Vec<Layer>,
    device: Device,
}

impl View for LayerStackGraph {
    type V = Seq<LayerData>;

    closed spec fn view(&self) -> Seq<LayerData> {
        stack(self.layers@)
    }
}

impl LayerStackGraph {
    /// The layers, in order.
    pub fn layers(&self) -> (layers: &Vec<Layer>)
        ensures
            stack(layers@) == self@,
    {
        &self.layers
    }

    /// The device that the graph was loaded for: there is only one.
    pub fn device(&self) -> (device: Device)
        ensures
            device == Device::Cpu,
    {
        self.device
    }
}

} // verus!
