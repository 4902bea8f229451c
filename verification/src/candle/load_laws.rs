//! What loading a layer stack does: which layers come of which configuration, and
//! what is refused.

use candle_core::Tensor as CTensor;
use vstd::prelude::*;

use super::backend::{
    CandleBackend, Layer, LayerConfig, LayerData, LayerStackGraph, ModelConfig,
};
use super::ops::{Device, TensorData};
use super::run::LayerStackExecutionContext;
use crate::memory::GuestMemory;
use crate::state::nn::NnState;
use crate::syscalls::wasi_nn::load::LoadRequest;
use crate::types::{ExecutionTarget, GraphEncoding, NnErrno};

verus! {

/// `i` is the first place in `entries` that has this name.
pub open spec fn first_named(entries: Seq<(String, CTensor)>, name: Seq<char>, i: int) -> bool {
    &&& 0 <= i < entries.len()
    &&& entries[i].0@ == name
    &&& forall|j: int| 0 <= j < i ==> #[trigger] entries[j].0@ != name
}

/// Some entry has this name.
pub open spec fn is_named(entries: Seq<(String, CTensor)>, name: Seq<char>) -> bool {
    exists|i: int| 0 <= i < entries.len() && #[trigger] entries[i].0@ == name
}

/// `tensor` holds what the first entry of this name holds.
pub open spec fn holds_named(entries: Seq<(String, CTensor)>, name: Seq<char>, tensor: CTensor) -> bool {
    exists|i: int| #[trigger]
        first_named(entries, name, i) && super::ops::data(tensor) == super::ops::data(entries[i].1)
}

/// Every tensor that a configured layer names has an entry.
pub open spec fn names_are_there(entries: Seq<(String, CTensor)>, config: LayerConfig) -> bool {
    match config {
        LayerConfig::Relu => true,
        LayerConfig::Linear { weight, bias } => {
            &&& is_named(entries, weight@)
            &&& bias is Some ==> is_named(entries, bias->0@)
        },
    }
}

/// `layer` is the layer that `config` asks for, with the tensors that it names.
pub open spec fn is_the_layer(entries: Seq<(String, CTensor)>, config: LayerConfig, layer: Layer) -> bool {
    match (config, layer) {
        (LayerConfig::Relu, Layer::Relu) => true,
        (LayerConfig::Linear { weight: name, bias: named }, Layer::Linear { weight, bias }) => {
            &&& holds_named(entries, name@, weight)
            &&& named is Some <==> bias is Some
            &&& bias is Some ==> holds_named(entries, named->0@, bias->0)
        },
        _ => false,
    }
}

/// What a lookup by name finds.
proof fn lemma_entry(entries: Seq<(String, CTensor)>, name: Seq<char>, from: int)
    requires
        0 <= from <= entries.len(),
        forall|j: int| 0 <= j < from ==> #[trigger] entries[j].0@ != name,
    ensures
        match super::backend::entry_from(entries, name, from) {
            Some(held) => is_named(entries, name) && exists|i: int| #[trigger]
                first_named(entries, name, i) && super::ops::data(entries[i].1) == held,
            None => !is_named(entries, name),
        },
    decreases entries.len() - from,
{
    if from < entries.len() {
        if entries[from].0@ == name {
            assert(first_named(entries, name, from));
        } else {
            lemma_entry(entries, name, from + 1);
        }
    }
}

/// Every configured layer is resolved to one layer, in order and with the tensors
/// that it names; of several entries of one name the first counts. Layers are
/// refused, with a runtime error, exactly where one of them names a tensor that is
/// not there.
pub proof fn law_every_layer_is_resolved_in_order(
    entries: &Vec<(String, CTensor)>,
    config: &ModelConfig,
    result: Result<Vec<Layer>, NnErrno>,
)
    requires
        call_ensures(super::backend::resolve_layers, (entries, config), result),
    ensures
        result is Ok <==> forall|i: int|
            0 <= i < config.layers@.len() ==> names_are_there(entries@, #[trigger] config.layers@[i]),
        result is Err ==> result->Err_0 == NnErrno::RuntimeError,
        result is Ok ==> {
            &&& result->Ok_0@.len() == config.layers@.len()
            &&& forall|i: int|
                0 <= i < config.layers@.len() ==> is_the_layer(
                    entries@,
                    #[trigger] config.layers@[i],
                    result->Ok_0@[i],
                )
        },
{
    let weights = super::backend::weights_of(entries@);
    assert forall|name: Seq<char>| #[trigger] weights.contains_key(name) <==> is_named(entries@, name) by {
        lemma_entry(entries@, name, 0);
    }
    assert forall|i: int| 0 <= i < config.layers@.len() implies (super::backend::layer_of(
        weights,
        #[trigger] config@[i],
    ) is Some <==> names_are_there(entries@, config.layers@[i])) by {
        match config.layers@[i] {
            LayerConfig::Relu => {},
            LayerConfig::Linear { weight, bias } => {
                assert(weights.contains_key(weight@) <==> is_named(entries@, weight@));
                if let Some(bias) = bias {
                    assert(weights.contains_key(bias@) <==> is_named(entries@, bias@));
                }
            },
        }
    }
    if result is Ok {
        let layers = result->Ok_0;
        assert(super::backend::layers_of(weights, config@) == Some(super::backend::stack(layers@)));
        assert(super::backend::stack(layers@).len() == layers@.len());
        assert forall|i: int| 0 <= i < config.layers@.len() implies names_are_there(
            entries@,
            #[trigger] config.layers@[i],
        ) && is_the_layer(entries@, config.layers@[i], layers@[i]) by {
            assert(super::backend::layer_of(weights, config@[i]) is Some);
            assert(super::backend::stack(layers@)[i] == layers@[i]@);
            assert(super::backend::layer_of(weights, config@[i])->0 == layers@[i]@);
            match config.layers@[i] {
                LayerConfig::Relu => {},
                LayerConfig::Linear { weight, bias } => {
                    lemma_entry(entries@, weight@, 0);
                    if let Some(bias) = bias {
                        lemma_entry(entries@, bias@, 0);
                    }
                },
            }
        }
    } else {
        if forall|i: int|
            0 <= i < config.layers@.len() ==> names_are_there(entries@, #[trigger] config.layers@[i]) {
            assert forall|i: int| 0 <= i < config@.len() implies super::backend::layer_of(
                weights,
                #[trigger] config@[i],
            ) is Some by {
                assert(names_are_there(entries@, config.layers@[i]));
            }
        }
    }
}

/// A file can be reckoned with: where its first eight bytes give the length of a
/// header that it has room for and that is readable, the last tensor ends inside the
/// file, and the elements of every shape can be counted.
pub open spec fn reckonable(file: Seq<u8>) -> bool {
    let len = crate::memory::u32_at(file, 0) + 0x1_0000_0000 * crate::memory::u32_at(file, 4);
    let header = file.subrange(8, 8 + len);
    8 <= file.len() && 8 + len <= file.len() && super::ops::sizes_in(header) is Some ==> {
        let sizes = super::ops::sizes_in(header)->0;
        &&& 8 + len + sizes.end <= file.len()
        &&& forall|dims: Seq<usize>| #[trigger]
            sizes.shapes.contains(dims) ==> forall|i: int|
                0 <= i <= dims.len() ==> #[trigger] super::shape::count(dims.take(i)) <= usize::MAX
                    && super::shape::count(dims.skip(i)) <= usize::MAX
    }
}

/// A file is measured exactly where it can be reckoned with.
pub proof fn law_files_are_measured_by_their_headers(file: &[u8], fits: bool)
    requires
        call_ensures(super::header::can_measure, (file,), fits),
    ensures
        fits <==> reckonable(file@),
{
    lemma_reckonable(file@);
}

/// Which files can be measured.
proof fn lemma_reckonable(file: Seq<u8>)
    ensures
        super::ops::measurable(file) <==> reckonable(file),
{
    if reckonable(file) {
        if let Some(header) = super::ops::header_in(file) {
            if let Some(sizes) = super::ops::sizes_in(header) {
                assert forall|dims: Seq<usize>| #[trigger]
                    sizes.shapes.contains(dims) implies super::shape::countable(dims) by {
                    assert forall|i: int| 0 <= i <= dims.len() implies super::shape::count(
                        #[trigger] dims.skip(i),
                    ) <= usize::MAX by {
                        assert(super::shape::count(dims.take(i)) <= usize::MAX);
                    }
                }
            }
        }
    }
}

/// The bytes of each blob.
pub open spec fn contents(blobs: Seq<Vec<u8>>) -> Seq<Seq<u8>> {
    Seq::new(blobs.len(), |i: int| blobs[i]@)
}

/// The file has every tensor that a configured layer names.
pub open spec fn has_tensors(weights: Map<Seq<char>, TensorData>, config: LayerConfig) -> bool {
    match config {
        LayerConfig::Relu => true,
        LayerConfig::Linear { weight, bias } => {
            &&& weights.contains_key(weight@)
            &&& bias is Some ==> weights.contains_key(bias->0@)
        },
    }
}

/// `layer` is the layer that `config` asks for, with the tensors of the file that it
/// names.
pub open spec fn comes_of(
    weights: Map<Seq<char>, TensorData>,
    config: LayerConfig,
    layer: LayerData,
) -> bool {
    match (config, layer) {
        (LayerConfig::Relu, LayerData::Relu) => true,
        (LayerConfig::Linear { weight: name, bias: named }, LayerData::Linear { weight, bias }) => {
            &&& weight == weights[name@]
            &&& named is Some <==> bias is Some
            &&& bias is Some ==> bias->0 == weights[named->0@]
        },
        _ => false,
    }
}

/// What a request for a graph comes to: `layers`, one for each configured layer and
/// in their order, or why there are none.
pub open spec fn load_answered(
    builders: Seq<Seq<u8>>,
    encoding: GraphEncoding,
    target: ExecutionTarget,
    config: Option<ModelConfig>,
    layers: Result<Seq<LayerData>, NnErrno>,
) -> bool {
    if encoding != GraphEncoding::Autodetect {
        layers == Err::<Seq<LayerData>, NnErrno>(NnErrno::InvalidEncoding)
    } else if builders.len() != 2 {
        layers == Err::<Seq<LayerData>, NnErrno>(NnErrno::InvalidArgument)
    } else if target != ExecutionTarget::Cpu {
        layers == Err::<Seq<LayerData>, NnErrno>(NnErrno::UnsupportedOperation)
    } else if config is None {
        layers == Err::<Seq<LayerData>, NnErrno>(NnErrno::InvalidArgument)
    } else if !reckonable(builders[1]) || super::ops::weights_in(builders[1]) is None {
        layers == Err::<Seq<LayerData>, NnErrno>(NnErrno::RuntimeError)
    } else {
        let weights = super::ops::weights_in(builders[1])->0;
        let configured = config->0.layers@;
        &&& layers is Ok <==> forall|i: int|
            0 <= i < configured.len() ==> has_tensors(weights, #[trigger] configured[i])
        &&& layers is Err ==> layers->Err_0 == NnErrno::RuntimeError
        &&& layers is Ok ==> {
            &&& layers->Ok_0.len() == configured.len()
            &&& forall|i: int|
                0 <= i < configured.len() ==> comes_of(
                    weights,
                    #[trigger] configured[i],
                    layers->Ok_0[i],
                )
        }
    }
}

/// What loading comes to.
proof fn lemma_load_answered(
    builders: Seq<Seq<u8>>,
    encoding: GraphEncoding,
    target: ExecutionTarget,
    config: Option<ModelConfig>,
)
    ensures
        load_answered(
            builders,
            encoding,
            target,
            config,
            super::backend::loaded(
                builders,
                encoding,
                target,
                match config {
                    Some(config) => Some(config@),
                    None => None,
                },
            ),
        ),
{
    if builders.len() == 2 {
        lemma_reckonable(builders[1]);
    }
    if encoding == GraphEncoding::Autodetect && builders.len() == 2 && target == ExecutionTarget::Cpu
        && config is Some && reckonable(builders[1]) && super::ops::weights_in(builders[1]) is Some {
        let weights = super::ops::weights_in(builders[1])->0;
        let configured = config->0.layers@;
        let view = config->0@;
        assert forall|i: int| 0 <= i < configured.len() implies (super::backend::layer_of(
            weights,
            #[trigger] view[i],
        ) is Some <==> has_tensors(weights, configured[i])) by {}
        if forall|i: int| 0 <= i < configured.len() ==> has_tensors(weights, #[trigger] configured[i]) {
            assert forall|i: int| 0 <= i < view.len() implies super::backend::layer_of(
                weights,
                #[trigger] view[i],
            ) is Some by {
                assert(has_tensors(weights, configured[i]));
            }
            let layers = super::backend::layers_of(weights, view)->0;
            assert forall|i: int| 0 <= i < configured.len() implies comes_of(
                weights,
                #[trigger] configured[i],
                layers[i],
            ) by {
                assert(super::backend::layer_of(weights, view[i]) is Some);
            }
        } else {
            let i = choose|i: int|
                0 <= i < configured.len() && !has_tensors(weights, #[trigger] configured[i]);
            assert(super::backend::layer_of(weights, view[i]) is None);
        }
    }
}

/// A load gives one layer for each configured layer, in order and with the tensors of
/// the file under the names that the configuration gives, or is refused as it should
/// be. In particular a configured layer that names a tensor that the file lacks is a
/// runtime error.
pub proof fn law_a_load_gives_every_configured_layer(
    backend: &CandleBackend,
    builders: &[Vec<u8>],
    encoding: GraphEncoding,
    target: ExecutionTarget,
    config: Option<ModelConfig>,
    result: Result<LayerStackGraph, NnErrno>,
)
    requires
        call_ensures(CandleBackend::load, (backend, builders, encoding, target, config), result),
    ensures
        load_answered(
            contents(builders@),
            encoding,
            target,
            config,
            match result {
                Ok(graph) => Ok(graph@),
                Err(errno) => Err(errno),
            },
        ),
{
    let blobs = contents(builders@);
    assert(blobs =~= crate::backend::blob_views(builders@));
    lemma_load_answered(blobs, encoding, target, config);
}

/// A decoded request registers a graph of the configured layers and hands its handle
/// out, or is refused as it should be without changing anything.
pub proof fn law_a_decoded_request_registers_its_layers(
    nn: &mut NnState<LayerStackGraph, LayerStackExecutionContext>,
    memory: &mut GuestMemory,
    request: &LoadRequest,
    config: Option<ModelConfig>,
    graph_out: u32,
    result: Result<(), NnErrno>,
)
    requires
        call_ensures(super::load::load_decoded, (nn, memory, request, config, graph_out), result),
    ensures
        exists|layers: Result<Seq<LayerData>, NnErrno>|
            {
                &&& #[trigger] load_answered(
                    contents(request.blobs@),
                    request.encoding,
                    request.target,
                    config,
                    layers,
                )
                &&& match layers {
                    Err(errno) => {
                        &&& result == Err::<(), NnErrno>(errno)
                        &&& final(nn)@ == old(nn)@
                        &&& final(memory)@ == old(memory)@
                    },
                    Ok(layers) => if old(nn)@.issued == u32::MAX {
                        &&& result == Err::<(), NnErrno>(NnErrno::TooLarge)
                        &&& final(nn)@ == old(nn)@
                        &&& final(memory)@ == old(memory)@
                    } else {
                        let handle = (old(nn)@.issued + 1) as u32;
                        &&& final(nn)@.issued == handle
                        &&& final(nn)@.graphs.contains_key(handle)
                        &&& final(nn)@.graphs[handle]@ == layers
                        &&& final(nn)@.graphs == old(nn)@.graphs.insert(
                            handle,
                            final(nn)@.graphs[handle],
                        )
                        &&& final(nn)@.contexts == old(nn)@.contexts
                        &&& if graph_out + 4 <= old(memory)@.len() {
                            &&& result is Ok
                            &&& crate::memory::differs_by_integer(
                                old(memory)@,
                                final(memory)@,
                                graph_out as int,
                                handle,
                            )
                        } else {
                            &&& result == Err::<(), NnErrno>(NnErrno::MissingMemory)
                            &&& final(memory)@ == old(memory)@
                        }
                    },
                }
            },
{
    let blobs = contents(request.blobs@);
    assert(blobs =~= request@.blobs);
    lemma_load_answered(blobs, request.encoding, request.target, config);
    let layers = super::backend::loaded(
        blobs,
        request.encoding,
        request.target,
        match config {
            Some(config) => Some(config@),
            None => None,
        },
    );
    crate::memory::law_a_written_integer_is_the_difference(
        old(memory)@,
        graph_out,
        (old(nn)@.issued + 1) as u32,
    );
    if let Ok(loaded) = layers {
        let graph = choose|graph: LayerStackGraph|
            {
                &&& graph@ == loaded
                &&& (final(nn)@, final(memory)@, result)
                    == #[trigger] crate::syscalls::wasi_nn::load::graph_delivered(
                    old(nn)@,
                    old(memory)@,
                    Ok(graph),
                    graph_out,
                )
            };
        if old(nn)@.issued < u32::MAX {
            assert(final(nn)@.graphs[(old(nn)@.issued + 1) as u32] == graph);
        }
    }
}

/// A graph hands out its layers, with what each of them holds.
pub proof fn law_a_graph_hands_out_its_layers(graph: &LayerStackGraph, layers: &Vec<Layer>, device: Device)
    requires
        call_ensures(LayerStackGraph::layers, (graph,), layers),
        call_ensures(LayerStackGraph::device, (graph,), device),
    ensures
        layers@.len() == graph@.len(),
        forall|i: int|
            0 <= i < layers@.len() ==> match (#[trigger] layers@[i], graph@[i]) {
                (Layer::Relu, LayerData::Relu) => true,
                (
                    Layer::Linear { weight, bias },
                    LayerData::Linear { weight: weight_data, bias: bias_data },
                ) => {
                    &&& super::ops::data(weight) == weight_data
                    &&& bias is Some <==> bias_data is Some
                    &&& bias is Some ==> super::ops::data(bias->0) == bias_data->0
                },
                _ => false,
            },
        device == Device::Cpu,
{
    assert forall|i: int| 0 <= i < layers@.len() implies graph@[i] == (#[trigger] layers@[i])@ by {
        assert(super::backend::stack(layers@)[i] == layers@[i]@);
    }
}

} // verus!
