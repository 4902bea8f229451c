//! What a run of a layer stack does, layer by layer: what each layer is given, what
//! it may give, and where it fails.

use vstd::prelude::*;

use super::backend::{LayerData, LayerStackGraph};
use super::ops::TensorData;
use super::run::LayerStackExecutionContext;
use crate::backend::{NnExecutionContext, NnGraph};
use crate::types::{NnErrno, Tensor, TensorType};

verus! {

/// `turned` is `weight` with rows and columns exchanged, in each of its matrices.
pub open spec fn transposed(weight: TensorData, turned: TensorData) -> bool {
    let rank = weight.dims.len();
    let rows = weight.dims[rank - 2] as int;
    let columns = weight.dims[rank - 1] as int;
    &&& rank >= 2
    &&& turned.single == weight.single
    &&& turned.dims.len() == rank
    &&& forall|i: int| 0 <= i < rank - 2 ==> #[trigger] turned.dims[i] == weight.dims[i]
    &&& turned.dims[rank - 2] == columns
    &&& turned.dims[rank - 1] == rows
    &&& weight.sound() ==> forall|matrix: int, row: int, column: int|
        0 <= matrix < super::shape::count(weight.dims.take(rank - 2)) && 0 <= row < rows && 0 <= column
            < columns ==> #[trigger] turned.bits(matrix * rows * columns + column * rows + row)
            == #[trigger] weight.bits(matrix * rows * columns + row * columns + column)
}

/// `product` is what multiplying `x` with the transposed weight may give.
pub open spec fn multiplied(x: TensorData, weight: TensorData, product: TensorData) -> bool {
    exists|turned: TensorData| #[trigger]
        transposed(weight, turned) && super::ops::may_multiply_to(x, turned, Some(product))
}

/// `y` is what adding `bias` to `product` may give, in the shape that the two
/// broadcast to. Where that has elements along more extents than two tensors are
/// walked along, they are added along runs of extents.
pub open spec fn added(product: TensorData, bias: TensorData, y: TensorData) -> bool {
    &&& super::shape_laws::broadcasts_to(product.dims, bias.dims, y.dims)
    &&& if y.dims.len() <= 8 || super::shape::count(y.dims) == 0 {
        super::ops::may_add_to(product, bias, Some(y))
    } else {
        exists|l: Seq<usize>, r: Seq<usize>, sum: TensorData|
            {
                &&& #[trigger] super::ops::may_add_to(product.reshaped(l), bias.reshaped(r), Some(sum))
                &&& super::fold_laws::made_of_runs(
                    super::fold_laws::padded(product.dims, y.dims.len()),
                    super::fold_laws::padded(bias.dims, y.dims.len()),
                    l,
                    r,
                )
                &&& y.bytes == sum.bytes
                &&& y.single == sum.single
            }
    }
}

/// `y` is `x` with every element clipped at zero: what is zero or more is as it was,
/// and what is negative or no number is zero, of which the sign is left open where it
/// was a negative zero.
pub open spec fn clipped(x: TensorData, y: TensorData) -> bool {
    &&& y.dims == x.dims
    &&& y.single == x.single
    &&& y.bytes.len() == x.bytes.len()
    &&& forall|i: int|
        0 <= i < super::shape::count(x.dims) ==> {
            &&& x.bits(i) <= 0x7f80_0000 ==> #[trigger] y.bits(i) == x.bits(i)
            &&& x.bits(i) > 0x7f80_0000 && x.bits(i) != 0x8000_0000 ==> y.bits(i) == 0
            &&& x.bits(i) == 0x8000_0000 ==> y.bits(i) == 0 || y.bits(i) == 0x8000_0000
        }
}

/// A layer that is given `x` gives `y`.
pub open spec fn steps(layer: LayerData, x: TensorData, y: TensorData) -> bool {
    match layer {
        LayerData::Relu => clipped(x, y),
        LayerData::Linear { weight, bias } => match bias {
            None => multiplied(x, weight, y),
            Some(bias) => exists|product: TensorData| #[trigger]
                multiplied(x, weight, product) && added(product, bias, y),
        },
    }
}

/// The product of `x` and `turned` would be made, but it, or one of the two as it is
/// broadcast for it, is too large to be allocated.
pub open spec fn product_too_large(x: TensorData, turned: TensorData) -> bool {
    let l_batch = x.dims.take(x.dims.len() - 2);
    let r_batch = turned.dims.take(turned.dims.len() - 2);
    let m = super::shape_laws::from_the_back(x.dims, 1);
    let k = super::shape_laws::from_the_back(x.dims, 0);
    let n = super::shape_laws::from_the_back(turned.dims, 0);
    let in_place = turned.dims.len() == 2 && x.row_major;
    &&& x.dims.len() >= 2
    &&& turned.dims.len() >= 2
    &&& k == super::shape_laws::from_the_back(turned.dims, 1)
    &&& exists|batch: Seq<usize>| #[trigger]
        super::shape_laws::broadcasts_to(l_batch, r_batch, batch) && {
            ||| !super::shape::allocatable(batch + seq![m, k], true)
            ||| !super::shape::allocatable(batch + seq![m, n], true)
            ||| in_place && !super::shape::allocatable(seq![k, n], turned.single)
            ||| !in_place && !super::shape::allocatable(batch + seq![k, n], turned.single)
        }
}

/// `bias` cannot be added to `product`: their shapes clash, it is not made of
/// single-precision floats, the sum is too large to be allocated, or it has elements
/// and its extents cannot be cut into few enough runs.
pub open spec fn cannot_be_added(product: TensorData, bias: TensorData) -> bool {
    ||| super::shape_laws::clash(product.dims, bias.dims)
    ||| !bias.single
    ||| exists|dims: Seq<usize>| #[trigger]
        super::shape_laws::broadcasts_to(product.dims, bias.dims, dims) && {
            ||| !super::shape::allocatable(dims, true)
            ||| super::shape::count(dims) > 0 && dims.len() > 8 && !bias.row_major
            ||| super::shape::count(dims) > 0 && dims.len() > 8 && forall|l: Seq<usize>, r: Seq<usize>| #[trigger]
                super::fold_laws::made_of_runs(
                    super::fold_laws::padded(product.dims, dims.len()),
                    super::fold_laws::padded(bias.dims, dims.len()),
                    l,
                    r,
                ) ==> l.len() > 8
        }
}

/// The product of `x` and `turned` may fail. That of single-precision floats does not
/// where the one is a matrix, or a stack of them in row-major order, the other is a
/// matrix, and the inner extents agree.
pub open spec fn product_may_fail(x: TensorData, turned: TensorData) -> bool {
    &&& super::ops::may_multiply_to(x, turned, None)
    &&& {
        ||| !x.single
        ||| !turned.single
        ||| x.dims.len() < 2
        ||| turned.dims.len() != 2
        ||| x.dims.len() > 2 && !x.row_major
        ||| super::shape_laws::from_the_back(x.dims, 0) != super::shape_laws::from_the_back(turned.dims, 1)
    }
}

/// A layer may fail on `x`. Only a linear one does: where its weight is no matrix,
/// or the product or the sum cannot be made.
pub open spec fn may_fail(layer: LayerData, x: TensorData) -> bool {
    match layer {
        LayerData::Relu => false,
        LayerData::Linear { weight, bias } => {
            ||| weight.dims.len() < 2
            ||| exists|turned: TensorData| #[trigger]
                transposed(weight, turned) && (product_too_large(x, turned) || product_may_fail(x, turned))
            ||| exists|product: TensorData| #[trigger]
                multiplied(x, weight, product) && bias is Some && cannot_be_added(product, bias->0)
        },
    }
}

/// What `transpose` gives is the transposed tensor.
proof fn lemma_transposed(weight: TensorData, turned: TensorData)
    requires
        super::ops::is_transpose(weight, turned),
    ensures
        transposed(weight, turned),
{
    let rank = weight.dims.len();
    assert forall|i: int| 0 <= i < rank - 2 implies #[trigger] turned.dims[i] == weight.dims[i] by {
        assert(weight.dims.take(rank - 2)[i] == weight.dims[i]);
    }
}

/// What adding a bias may give is related to the bias.
proof fn lemma_added(product: TensorData, bias: TensorData, y: Option<TensorData>)
    requires
        product.single,
        super::run::bias_may_give(product, Some(bias), y),
    ensures
        y is Some ==> added(product, bias, y->0),
        y is None ==> cannot_be_added(product, bias),
{
    super::shape_laws::law_shapes_broadcast_from_the_back(product.dims, bias.dims);
    if let Some(dims) = super::shape::joint(product.dims, bias.dims) {
        assert(super::shape_laws::broadcasts_to(product.dims, bias.dims, dims));
        let pairs = super::fold::folded(super::fold::paired(product.dims, bias.dims));
        let l_folded = super::fold::lefts(pairs);
        let r_folded = super::fold::rights(pairs);
        if super::shape::allocatable(dims, true) && super::shape::count(dims) > 0 {
            super::fold_laws::law_no_fewer_runs_than_the_fold(
                product.dims,
                bias.dims,
                dims,
                l_folded,
                r_folded,
            );
            assert forall|l: Seq<usize>, r: Seq<usize>| #[trigger]
                super::fold_laws::made_of_runs(
                    super::fold_laws::padded(product.dims, dims.len()),
                    super::fold_laws::padded(bias.dims, dims.len()),
                    l,
                    r,
                ) implies l.len() >= pairs.len() by {
                super::fold_laws::law_no_fewer_runs_than_the_fold(product.dims, bias.dims, dims, l, r);
            }
        }
        if !super::shape::sum_fits(product.dims, bias.dims) && bias.row_major && super::fold::folds(
            product.dims,
            bias.dims,
        ) {
            super::fold::lemma_folds(product.dims, bias.dims);
            let sum = choose|sum: Option<TensorData>| #[trigger]
                super::run::folded_sum_may_give(product, bias, sum, y);
            if let Some(sum) = sum {
                assert(super::ops::may_add_to(
                    product.reshaped(l_folded),
                    bias.reshaped(r_folded),
                    Some(sum),
                ));
            }
        }
    }
}

/// A product that does not fit is too large.
proof fn lemma_too_large(x: TensorData, turned: TensorData)
    requires
        !super::shape::product_fits(x.dims, turned.dims, x.row_major, turned.single),
    ensures
        product_too_large(x, turned),
{
    let l_batch = x.dims.take(x.dims.len() - 2);
    let r_batch = turned.dims.take(turned.dims.len() - 2);
    super::shape_laws::law_shapes_broadcast_from_the_back(l_batch, r_batch);
    let batch = super::shape::product_batch(x.dims, turned.dims)->0;
    assert(super::shape_laws::broadcasts_to(l_batch, r_batch, batch));
}

/// What a layer may give, and where it may fail.
proof fn lemma_steps(layer: LayerData, x: TensorData, y: Option<TensorData>)
    requires
        x.single,
        super::run::layer_may_give(layer, x, y),
    ensures
        y is Some ==> steps(layer, x, y->0) && y->0.single,
        y is None ==> may_fail(layer, x),
        y is Some && x.dims.len() >= 2 ==> y->0.dims.len() >= 2,
{
    match layer {
        LayerData::Relu => {
            let y = y->0;
            assert forall|i: int| 0 <= i < super::shape::count(x.dims) implies {
                &&& x.bits(i) <= 0x7f80_0000 ==> #[trigger] y.bits(i) == x.bits(i)
                &&& x.bits(i) > 0x7f80_0000 && x.bits(i) != 0x8000_0000 ==> y.bits(i) == 0
                &&& x.bits(i) == 0x8000_0000 ==> y.bits(i) == 0 || y.bits(i) == 0x8000_0000
            } by {
                assert(super::ops::is_clipped(x.bits(i), y.bits(i)));
            }
        },
        LayerData::Linear { weight, bias } => {
            if weight.dims.len() >= 2 {
                let (turned, product) = choose|turned: TensorData, product: Option<TensorData>|
                    super::ops::is_transpose(weight, turned) && #[trigger] super::run::linear_may_give(
                        turned,
                        bias,
                        x,
                        product,
                        y,
                    );
                lemma_transposed(weight, turned);
                if !super::shape::product_fits(x.dims, turned.dims, x.row_major, turned.single) {
                    lemma_too_large(x, turned);
                } else {
                    match product {
                        None => {
                            assert(product_may_fail(x, turned));
                        },
                        Some(product) => {
                            assert(multiplied(x, weight, product));
                            if let Some(bias) = bias {
                                lemma_added(product, bias, y);
                            }
                        },
                    }
                }
            }
        },
    }
}

/// A linear layer with a bias gives what adding that bias to the product with its
/// transposed weight may give, for every input and however many rows it has; one
/// without a bias gives the product.
pub proof fn law_a_linear_layer_multiplies_and_adds(
    weight: TensorData,
    bias: Option<TensorData>,
    x: TensorData,
    y: TensorData,
)
    requires
        x.single,
        super::run::layer_may_give(LayerData::Linear { weight, bias }, x, Some(y)),
    ensures
        bias is None ==> multiplied(x, weight, y),
        bias is Some ==> exists|product: TensorData| #[trigger]
            multiplied(x, weight, product) && added(product, bias->0, y),
{
    lemma_steps(LayerData::Linear { weight, bias }, x, Some(y));
}

/// The first layer is given the elements of the input. A vector is read as one row.
pub open spec fn begins_with(input: TensorData, first: TensorData) -> bool {
    &&& first.bytes == input.bytes
    &&& first.single == input.single
    &&& first.row_major == input.row_major
    &&& input.dims.len() == 1 ==> first.dims == seq![1usize, input.dims[0]]
    &&& input.dims.len() != 1 ==> first.dims == input.dims
}

/// The output has the elements that the last layer gave. One row is a vector again
/// where the input was one.
pub open spec fn ends_with(input: TensorData, last: TensorData, output: TensorData) -> bool {
    &&& output.bytes == last.bytes
    &&& output.single == last.single
    &&& input.dims.len() == 1 && last.dims[0] == 1 ==> output.dims == last.dims.skip(1)
    &&& !(input.dims.len() == 1 && last.dims[0] == 1) ==> output.dims == last.dims
}

/// `trace` begins with what the first layer is given and goes on with what each layer
/// made of what the one before it gave.
pub open spec fn passes_through(layers: Seq<LayerData>, input: TensorData, trace: Seq<TensorData>) -> bool {
    &&& trace.len() >= 1
    &&& begins_with(input, trace[0])
    &&& forall|i: int| 0 <= i < trace.len() - 1 ==> steps(#[trigger] layers[i], trace[i], trace[i + 1])
}

/// A run that comes to `output` passed through every layer once and in order; one that
/// comes to an error passed through the layers in front of one that may fail.
pub open spec fn comes_to(layers: Seq<LayerData>, input: TensorData, output: Option<TensorData>) -> bool {
    exists|trace: Seq<TensorData>|
        {
            &&& #[trigger] passes_through(layers, input, trace)
            &&& match output {
                Some(output) => trace.len() == layers.len() + 1 && ends_with(input, trace.last(), output),
                None => trace.len() <= layers.len() && may_fail(layers[trace.len() - 1], trace.last()),
            }
        }
}

/// What a run passed through.
proof fn lemma_trace(
    layers: Seq<LayerData>,
    input: TensorData,
    trace: Seq<TensorData>,
    output: Option<TensorData>,
    i: int,
)
    requires
        input.single,
        super::run::runs_through(layers, input, trace, output),
        0 <= i < trace.len(),
    ensures
        trace[i].single,
        input.dims.len() == 1 ==> trace[i].dims.len() >= 2,
        forall|j: int| 0 <= j < i ==> steps(#[trigger] layers[j], trace[j], trace[j + 1]),
    decreases i,
{
    if i > 0 {
        lemma_trace(layers, input, trace, output, i - 1);
        assert(super::run::layer_may_give(layers[i - 1], trace[i - 1], Some(trace[i])));
        lemma_steps(layers[i - 1], trace[i - 1], Some(trace[i]));
    }
}

/// A run of a stack passes through every layer once and in order, and each of them
/// makes of what it is given what it should. It fails only at a layer that may fail.
pub proof fn law_a_run_passes_through_every_layer(
    layers: Seq<LayerData>,
    input: TensorData,
    output: Option<TensorData>,
)
    requires
        input.single,
        super::run::may_run_to(layers, input, output),
    ensures
        comes_to(layers, input, output),
{
    let trace = choose|trace: Seq<TensorData>| #[trigger]
        super::run::runs_through(layers, input, trace, output);
    lemma_trace(layers, input, trace, output, trace.len() - 1);
    if input.dims.len() == 1 {
        assert(input.unsqueezed().dims =~= seq![1usize, input.dims[0]]);
    }
    assert(passes_through(layers, input, trace));
    if trace.len() <= layers.len() {
        lemma_steps(layers[trace.len() - 1], trace.last(), None);
    }
}

/// `compute` runs the layers of a context on its input: the output is what such a run
/// comes to, and nothing else changes. Without an input it is refused; where a layer
/// fails it is a runtime error. Either way nothing changes then.
pub proof fn law_compute_runs_the_layers_on_the_input(
    context: &mut LayerStackExecutionContext,
    result: Result<(), NnErrno>,
)
    requires
        call_ensures(<LayerStackExecutionContext as NnExecutionContext>::compute, (context,), result),
        old(context)@.input is Some ==> old(context)@.input->0.single,
    ensures
        final(context)@.layers == old(context)@.layers,
        final(context)@.input == old(context)@.input,
        result is Err ==> final(context)@.output == old(context)@.output,
        old(context)@.input is None ==> result == Err::<(), NnErrno>(NnErrno::InvalidArgument),
        old(context)@.input is Some ==> {
            let layers = old(context)@.layers;
            let input = old(context)@.input->0;
            &&& result is Err ==> result->Err_0 == NnErrno::RuntimeError && comes_to(layers, input, None)
            &&& result is Ok ==> final(context)@.output is Some && comes_to(
                layers,
                input,
                final(context)@.output,
            )
        },
{
    if let Some(input) = old(context)@.input {
        let output = choose|output: Option<TensorData>| #[trigger]
            super::run::may_run_to(old(context)@.layers, input, output) && match output {
                None => result == Err::<(), NnErrno>(NnErrno::RuntimeError) && final(context)@
                    == old(context)@,
                Some(output) => result == Ok::<(), NnErrno>(()) && final(context)@ == (
                super::run::ContextView { output: Some(output), ..old(context)@ }),
            };
        law_a_run_passes_through_every_layer(old(context)@.layers, input, output);
    }
}

/// `set_input` takes exactly a tensor of single-precision floats, as input zero, that
/// has as many elements as its dimensions say. The context then has a tensor of those
/// dimensions, in their order, with those bytes; nothing else changes. What is refused
/// changes nothing.
pub proof fn law_set_input_keeps_dimensions_and_bytes(
    context: &mut LayerStackExecutionContext,
    index: u32,
    tensor: Tensor,
    result: Result<(), NnErrno>,
)
    requires
        call_ensures(
            <LayerStackExecutionContext as NnExecutionContext>::set_input,
            (context, index, tensor),
            result,
        ),
    ensures
        ({
            let dims = Seq::new(tensor.dimensions@.len(), |k: int| tensor.dimensions@[k] as usize);
            let after = final(context)@;
            &&& after.layers == old(context)@.layers
            &&& after.output == old(context)@.output
            &&& result is Err ==> after.input == old(context)@.input
            &&& if index != 0 {
                result == Err::<(), NnErrno>(NnErrno::InvalidArgument)
            } else if tensor.ty != TensorType::F32 {
                result == Err::<(), NnErrno>(NnErrno::UnsupportedOperation)
            } else if !super::shape::countable(dims) || tensor.data@.len() != 4 * super::shape::count(dims) {
                result == Err::<(), NnErrno>(NnErrno::InvalidArgument)
            } else {
                &&& result is Ok
                &&& after.input is Some
                &&& after.input->0.single
                &&& after.input->0.row_major
                &&& after.input->0.bytes == tensor.data@
                &&& after.input->0.dims.len() == tensor.dimensions@.len()
                &&& forall|k: int|
                    0 <= k < tensor.dimensions@.len() ==> #[trigger] after.input->0.dims[k]
                        == tensor.dimensions@[k]
            }
        }),
{
    let dims = Seq::new(tensor.dimensions@.len(), |k: int| tensor.dimensions@[k] as usize);
    assert(dims =~= tensor.dimensions@.map_values(|extent: u32| extent as usize));
}

/// `get_output` gives the bytes of the output, as output zero, once there is one.
pub proof fn law_get_output_gives_the_bytes_of_the_output(
    context: &LayerStackExecutionContext,
    index: u32,
    result: Result<Vec<u8>, NnErrno>,
)
    requires
        call_ensures(
            <LayerStackExecutionContext as NnExecutionContext>::get_output,
            (context, index),
            result,
        ),
    ensures
        result is Ok <==> index == 0 && context@.output is Some,
        result is Ok ==> result->Ok_0@ == context@.output->0.bytes,
        result is Err ==> result->Err_0 == NnErrno::InvalidArgument,
{
    let outcome = crate::backend::bytes_outcome(result);
    assert(context.get_output_outcome(index, outcome));
}

/// A context is made of the layers of its graph, without an input and without an
/// output.
pub proof fn law_a_context_has_the_layers_of_its_graph(
    graph: &LayerStackGraph,
    result: Result<LayerStackExecutionContext, NnErrno>,
)
    requires
        call_ensures(<LayerStackGraph as NnGraph>::init_execution_context, (graph,), result),
    ensures
        result is Ok,
        result->Ok_0@.layers == graph@,
        result->Ok_0@.input is None,
        result->Ok_0@.output is None,
{
    assert(graph.init_outcome(result));
}

/// A sound tensor is made of single-precision floats, as many as its shape says. Its
/// elements lie four bytes apart, and taking a tensor under another shape leaves them
/// where they are.
pub proof fn law_elements_lie_four_bytes_apart(tensor: TensorData, i: int, dims: Seq<usize>)
    ensures
        tensor.sound() <==> tensor.single && super::shape::countable(tensor.dims) && tensor.bytes.len()
            == 4 * super::shape::count(tensor.dims),
        tensor.bits(i) == crate::memory::u32_at(tensor.bytes, 4 * i),
        tensor.reshaped(dims).bytes == tensor.bytes,
        tensor.reshaped(dims).single == tensor.single,
        tensor.reshaped(dims).row_major == tensor.row_major,
        tensor.reshaped(dims).dims == dims,
{
}

} // verus!
