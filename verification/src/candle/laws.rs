//! What holds of layer stacks and of the contexts that run them.

use vstd::prelude::*;

use super::backend::{LayerData, LayerStackGraph};
use super::ops::TensorData;
use super::run::{ContextView, LayerStackExecutionContext};
use crate::backend::{NnExecutionContext, NnGraph};
use crate::types::{NnErrno, TensorView};

verus! {

/// A graph without layers gives back what it is given, in shape and in
/// elements.
pub proof fn law_an_empty_stack_gives_its_input_back(input: TensorData, output: Option<TensorData>)
    requires
        super::run::may_run_to(Seq::empty(), input, output),
    ensures
        output == Some(input),
{
    if input.dims.len() == 1 {
        assert(input.unsqueezed().dims.skip(1) == input.dims);
    }
}

/// No element is negative after a `relu` layer, except that a negative zero may
/// be left. What is zero or more is left as it was.
pub proof fn law_relu_clips_negatives(x: TensorData, y: Option<TensorData>, i: int)
    requires
        super::run::layer_may_give(LayerData::Relu, x, y),
        0 <= i < super::shape::count(x.dims),
    ensures
        y is Some,
        y->0.dims == x.dims,
        y->0.bits(i) <= 0x7f80_0000 || y->0.bits(i) == 0x8000_0000,
        x.bits(i) <= 0x7f80_0000 ==> y->0.bits(i) == x.bits(i),
{
    assert(super::ops::is_clipped(x.bits(i), y->0.bits(i)));
}

/// A layer takes rows of `from` elements to rows of `to` elements. A linear
/// layer does so if its weight has `to` rows of `from` elements, and its bias, if
/// it has one, `to` elements, stored in row-major order as those of every loaded
/// graph are.
pub open spec fn takes_rows(layer: LayerData, from: usize, to: usize) -> bool {
    match layer {
        LayerData::Relu => from == to,
        LayerData::Linear { weight, bias } => {
            &&& weight.single
            &&& weight.dims == seq![to, from]
            &&& match bias {
                None => true,
                Some(bias) => bias.single && bias.row_major && bias.dims == seq![to],
            }
        },
    }
}

/// The layers take rows of `widths[0]` elements to rows of `widths[1]` elements
/// and so on, and the tensors that this takes can be allocated, where the rows lie
/// along the extents `rows`.
pub open spec fn stack_takes_rows(layers: Seq<LayerData>, rows: Seq<usize>, widths: Seq<usize>) -> bool {
    &&& widths.len() == layers.len() + 1
    &&& forall|i: int|
        0 <= i < layers.len() ==> {
            &&& takes_rows(#[trigger] layers[i], widths[i], widths[i + 1])
            &&& super::shape::allocatable(rows.push(widths[i]), true)
            &&& super::shape::allocatable(rows.push(widths[i + 1]), true)
            &&& super::shape::allocatable(seq![widths[i], widths[i + 1]], true)
        }
}

/// `x` is made of rows of `width` elements, which lie along the extents `rows`. If
/// there is more than one such extent, the elements are stored in row-major order.
pub open spec fn has_rows(x: TensorData, rows: Seq<usize>, width: usize) -> bool {
    &&& x.sound()
    &&& rows.len() >= 1
    &&& rows.len() == 1 || x.row_major
    &&& x.dims == rows.push(width)
}

/// The product of rows and a matrix has as many rows.
proof fn lemma_product_of_rows(rows: Seq<usize>, from: usize, to: usize)
    requires
        rows.len() >= 1,
    ensures
        super::shape::product_batch(rows.push(from), seq![from, to]) == Some(rows.drop_last()),
        rows.drop_last() + seq![rows.last(), from] == rows.push(from),
        rows.drop_last() + seq![rows.last(), to] == rows.push(to),
        rows.len() == 1 ==> rows.drop_last() + seq![from, to] == seq![from, to],
{
    let left = rows.push(from);
    let right = seq![from, to];
    let batch = rows.drop_last();
    let none = Seq::<usize>::empty();
    assert(left.take(left.len() - 2) == batch);
    assert(right.take(0) == none);
    assert forall|i: int| 0 <= i < batch.len() implies #[trigger] super::shape::joint_at(batch, none, i)
        == Some(batch[i]) by {}
    assert(super::shape::joint(batch, none)->0 =~= batch);
}

/// A bias of as many elements as a row has can be added to rows.
proof fn lemma_bias_of_rows(
    product: TensorData,
    bias: TensorData,
    rows: Seq<usize>,
    width: usize,
    y: Option<TensorData>,
)
    requires
        super::shape::allocatable(rows.push(width), true),
        has_rows(product, rows, width),
        product.row_major,
        bias.single,
        bias.row_major,
        bias.dims == seq![width],
        super::run::bias_may_give(product, Some(bias), y),
    ensures
        y is Some,
        has_rows(y->0, rows, width),
{
    super::fold::lemma_joint_with_last_extent(rows, width);
    if !super::shape::sum_fits(product.dims, bias.dims) {
        super::fold::lemma_last_extent_folds(rows, width);
        super::fold::lemma_folds(product.dims, bias.dims);
        let sum = choose|sum: Option<TensorData>| #[trigger]
            super::run::folded_sum_may_give(product, bias, sum, y);
        assert(sum is Some);
    }
}

/// A well-shaped layer succeeds on rows.
proof fn lemma_layer_takes_rows(
    layer: LayerData,
    rows: Seq<usize>,
    from: usize,
    to: usize,
    x: TensorData,
    y: Option<TensorData>,
)
    requires
        takes_rows(layer, from, to),
        super::shape::allocatable(rows.push(from), true),
        super::shape::allocatable(rows.push(to), true),
        super::shape::allocatable(seq![from, to], true),
        has_rows(x, rows, from),
        super::run::layer_may_give(layer, x, y),
    ensures
        y is Some,
        has_rows(y->0, rows, to),
{
    match layer {
        LayerData::Relu => {},
        LayerData::Linear { weight, bias } => {
            let (turned, product) = choose|turned: TensorData, product: Option<TensorData>|
                super::ops::is_transpose(weight, turned) && #[trigger] super::run::linear_may_give(
                    turned,
                    bias,
                    x,
                    product,
                    y,
                );
            assert(weight.dims.take(0) == Seq::<usize>::empty());
            assert(turned.dims == seq![from, to]);
            lemma_product_of_rows(rows, from, to);
            assert(super::shape::product_fits(x.dims, turned.dims, x.row_major, turned.single));
            assert(product is Some);
            assert(has_rows(product->0, rows, to));
            if let Some(bias) = bias {
                lemma_bias_of_rows(product->0, bias, rows, to, y);
            }
        },
    }
}

/// Every layer of a well-shaped stack is reached and succeeds.
proof fn lemma_trace_of_rows(
    layers: Seq<LayerData>,
    input: TensorData,
    trace: Seq<TensorData>,
    output: Option<TensorData>,
    rows: Seq<usize>,
    widths: Seq<usize>,
    i: int,
)
    requires
        stack_takes_rows(layers, rows, widths),
        super::run::runs_through(layers, input, trace, output),
        has_rows(super::run::entered(input), rows, widths[0]),
        0 <= i <= layers.len(),
    ensures
        i < trace.len(),
        has_rows(trace[i], rows, widths[i]),
    decreases i,
{
    if i > 0 {
        lemma_trace_of_rows(layers, input, trace, output, rows, widths, i - 1);
        let layer = layers[i - 1];
        if i == trace.len() {
            lemma_layer_takes_rows(layer, rows, widths[i - 1], widths[i], trace[i - 1], None);
        } else {
            lemma_layer_takes_rows(layer, rows, widths[i - 1], widths[i], trace[i - 1], Some(trace[i]));
        }
    }
}

/// A run of a well-shaped stack on a batch of rows succeeds and gives a batch of
/// as many rows, along the same extents, however many these are.
pub proof fn law_a_batch_gives_a_batch(
    layers: Seq<LayerData>,
    input: TensorData,
    output: Option<TensorData>,
    rows: Seq<usize>,
    widths: Seq<usize>,
)
    requires
        stack_takes_rows(layers, rows, widths),
        has_rows(input, rows, widths[0]),
        super::run::may_run_to(layers, input, output),
    ensures
        output is Some,
        output->0.dims == rows.push(widths.last()),
        output->0.bytes.len() == 4 * super::shape::count(rows.push(widths.last())),
{
    let trace = choose|trace: Seq<TensorData>| #[trigger]
        super::run::runs_through(layers, input, trace, output);
    lemma_trace_of_rows(layers, input, trace, output, rows, widths, layers.len() as int);
}

/// A run of a well-shaped stack on a vector succeeds and gives a vector.
pub proof fn law_a_vector_gives_a_vector(
    layers: Seq<LayerData>,
    input: TensorData,
    output: Option<TensorData>,
    widths: Seq<usize>,
)
    requires
        stack_takes_rows(layers, seq![1usize], widths),
        input.sound(),
        input.dims == seq![widths[0]],
        super::run::may_run_to(layers, input, output),
    ensures
        output is Some,
        output->0.dims == seq![widths.last()],
        output->0.bytes.len() == 4 * widths.last(),
{
    let trace = choose|trace: Seq<TensorData>| #[trigger]
        super::run::runs_through(layers, input, trace, output);
    super::shape::lemma_leading_one(input.dims);
    assert(seq![1usize] + input.dims == seq![1usize].push(widths[0]));
    lemma_trace_of_rows(layers, input, trace, output, seq![1usize], widths, layers.len() as int);
    let last = trace.last();
    assert(last.dims.skip(1) == seq![widths.last()]);
    assert(seq![1usize] + seq![widths.last()] == last.dims);
    super::shape::lemma_leading_one(seq![widths.last()]);
    super::shape::lemma_single_extent(widths.last());
}

/// A new context has neither an input nor an output: it cannot be run, and there
/// is nothing to get from it.
pub proof fn law_a_new_context_is_empty(
    graph: LayerStackGraph,
    context: LayerStackExecutionContext,
    after: LayerStackExecutionContext,
    computed: Result<(), NnErrno>,
    index: u32,
    output: Result<Seq<u8>, NnErrno>,
)
    requires
        graph.init_outcome(Ok(context)),
        LayerStackExecutionContext::compute_outcome(context, after, computed),
        context.get_output_outcome(index, output),
    ensures
        context@.layers == graph@,
        computed == Err::<(), NnErrno>(NnErrno::InvalidArgument),
        after@ == context@,
        output == Err::<Seq<u8>, NnErrno>(NnErrno::InvalidArgument),
{
}

/// A call that is refused leaves a context as it was, and a call that succeeds
/// changes nothing but what it is about: `set_input` the input, `compute` the
/// output.
pub proof fn law_contexts_change_one_thing_at_a_time(
    before: LayerStackExecutionContext,
    index: u32,
    tensor: TensorView,
    set: LayerStackExecutionContext,
    was_set: Result<(), NnErrno>,
    run: LayerStackExecutionContext,
    was_run: Result<(), NnErrno>,
)
    requires
        LayerStackExecutionContext::set_input_outcome(before, index, tensor, set, was_set),
        LayerStackExecutionContext::compute_outcome(before, run, was_run),
    ensures
        was_set is Err ==> set@ == before@,
        set@ == (ContextView { input: set@.input, ..before@ }),
        was_run is Err ==> run@ == before@,
        run@ == (ContextView { output: run@.output, ..before@ }),
{
}

/// What was set as the input of a graph without layers comes back as its output.
pub proof fn law_an_input_passes_through_an_empty_stack(
    before: LayerStackExecutionContext,
    tensor: TensorView,
    set: LayerStackExecutionContext,
    run: LayerStackExecutionContext,
    was_run: Result<(), NnErrno>,
    output: Result<Seq<u8>, NnErrno>,
)
    requires
        before@.layers.len() == 0,
        LayerStackExecutionContext::set_input_outcome(before, 0, tensor, set, Ok(())),
        LayerStackExecutionContext::compute_outcome(set, run, was_run),
        run.get_output_outcome(0, output),
    ensures
        was_run == Ok::<(), NnErrno>(()),
        output == Ok::<Seq<u8>, NnErrno>(tensor.data),
{
    let input = super::run::input_of(0, tensor)->Ok_0;
    let given = choose|given: Option<TensorData>| #[trigger]
        super::run::may_run_to(set@.layers, input, given) && match given {
            None => was_run == Err::<(), NnErrno>(NnErrno::RuntimeError) && run@ == set@,
            Some(given) => was_run == Ok::<(), NnErrno>(()) && run@ == (ContextView {
                output: Some(given),
                ..set@
            }),
        };
    assert(set@.layers == Seq::<LayerData>::empty());
    law_an_empty_stack_gives_its_input_back(input, given);
}

/// A run consumes nothing: the input and the layers are still there, and a second
/// run may come to the output that the first one came to. In a graph without
/// layers it comes to no other.
pub proof fn law_a_run_can_be_repeated(
    before: LayerStackExecutionContext,
    first: LayerStackExecutionContext,
    second: LayerStackExecutionContext,
    was_run: Result<(), NnErrno>,
)
    requires
        LayerStackExecutionContext::compute_outcome(before, first, Ok(())),
        LayerStackExecutionContext::compute_outcome(first, second, was_run),
    ensures
        first@.input == before@.input,
        first@.layers == before@.layers,
        LayerStackExecutionContext::compute_outcome(first, first, Ok(())),
        before@.layers.len() == 0 ==> was_run == Ok::<(), NnErrno>(()) && second@ == first@,
{
    let input = before@.input->0;
    let given = choose|given: Option<TensorData>| #[trigger]
        super::run::may_run_to(before@.layers, input, given) && given is Some && first@ == (ContextView {
            output: given,
            ..before@
        });
    assert(super::run::may_run_to(first@.layers, input, first@.output));
    if before@.layers.len() == 0 {
        assert(before@.layers == Seq::<LayerData>::empty());
        let again = choose|again: Option<TensorData>| #[trigger]
            super::run::may_run_to(first@.layers, input, again) && match again {
                None => was_run == Err::<(), NnErrno>(NnErrno::RuntimeError) && second@ == first@,
                Some(output) => was_run == Ok::<(), NnErrno>(()) && second@ == (ContextView {
                    output: Some(output),
                    ..first@
                }),
            };
        law_an_empty_stack_gives_its_input_back(input, given);
        law_an_empty_stack_gives_its_input_back(input, again);
    }
}

/// A well-shaped stack runs on its input, and runs again: the second run succeeds
/// as the first one does, comes to an output of the same shape, and leaves the
/// rest of the context alone. The input is a batch of rows, or a vector, which is
/// one row.
pub proof fn law_a_well_shaped_run_succeeds_again(
    before: LayerStackExecutionContext,
    first: LayerStackExecutionContext,
    second: LayerStackExecutionContext,
    was_run: Result<(), NnErrno>,
    was_run_again: Result<(), NnErrno>,
    output: Result<Seq<u8>, NnErrno>,
    output_again: Result<Seq<u8>, NnErrno>,
    rows: Seq<usize>,
    widths: Seq<usize>,
)
    requires
        before@.input is Some,
        stack_takes_rows(before@.layers, rows, widths),
        has_rows(before@.input->0, rows, widths[0]) || before@.input->0.sound() && before@.input->0.dims
            == seq![widths[0]] && rows == seq![1usize],
        LayerStackExecutionContext::compute_outcome(before, first, was_run),
        LayerStackExecutionContext::compute_outcome(first, second, was_run_again),
        first.get_output_outcome(0, output),
        second.get_output_outcome(0, output_again),
    ensures
        was_run == Ok::<(), NnErrno>(()),
        was_run_again == Ok::<(), NnErrno>(()),
        first@.output is Some,
        second@ == (ContextView { output: second@.output, ..first@ }),
        second@.output is Some,
        second@.output->0.dims == first@.output->0.dims,
        output is Ok,
        output_again is Ok,
        output_again->Ok_0.len() == output->Ok_0.len(),
{
    let input = before@.input->0;
    let given = choose|given: Option<TensorData>| #[trigger]
        super::run::may_run_to(before@.layers, input, given) && match given {
            None => was_run == Err::<(), NnErrno>(NnErrno::RuntimeError) && first@ == before@,
            Some(given) => was_run == Ok::<(), NnErrno>(()) && first@ == (ContextView {
                output: Some(given),
                ..before@
            }),
        };
    let again = choose|again: Option<TensorData>| #[trigger]
        super::run::may_run_to(first@.layers, input, again) && match again {
            None => was_run_again == Err::<(), NnErrno>(NnErrno::RuntimeError) && second@ == first@,
            Some(again) => was_run_again == Ok::<(), NnErrno>(()) && second@ == (ContextView {
                output: Some(again),
                ..first@
            }),
        };
    if has_rows(input, rows, widths[0]) {
        law_a_batch_gives_a_batch(before@.layers, input, given, rows, widths);
        law_a_batch_gives_a_batch(before@.layers, input, again, rows, widths);
    } else {
        law_a_vector_gives_a_vector(before@.layers, input, given, widths);
        law_a_vector_gives_a_vector(before@.layers, input, again, widths);
    }
}

/// The bits of a single-precision float, clipped at zero.
pub open spec fn clip(bits: u32) -> u32 {
    if bits <= 0x7f80_0000 {
        bits
    } else {
        0
    }
}

/// Each layer of a stack of `relu` layers is reached, and has the clipped input.
proof fn lemma_trace_of_relus(
    layers: Seq<LayerData>,
    input: TensorData,
    trace: Seq<TensorData>,
    output: Option<TensorData>,
    i: int,
)
    requires
        forall|k: int| 0 <= k < layers.len() ==> #[trigger] layers[k] is Relu,
        super::run::runs_through(layers, input, trace, output),
        0 <= i <= layers.len(),
    ensures
        i < trace.len(),
        trace[i].dims == super::run::entered(input).dims,
        forall|j: int|
            0 <= j < super::shape::count(input.dims) && input.bits(j) != 0x8000_0000 ==> #[trigger] trace[i].bits(
                j,
            ) == if i == 0 {
                input.bits(j)
            } else {
                clip(input.bits(j))
            },
    decreases i,
{
    super::shape::lemma_leading_one(input.dims);
    if i > 0 {
        lemma_trace_of_relus(layers, input, trace, output, i - 1);
        let layer = layers[i - 1];
        assert(i < trace.len());
        let x = trace[i - 1];
        let y = trace[i];
        assert(super::run::layer_may_give(layer, x, Some(y)));
        assert forall|j: int|
            0 <= j < super::shape::count(input.dims) && input.bits(j) != 0x8000_0000 implies #[trigger] y.bits(
            j,
        ) == clip(input.bits(j)) by {
            assert(super::ops::is_clipped(x.bits(j), y.bits(j)));
        }
    }
}

/// A run of `relu` layers succeeds, and every run of them on the same input comes
/// to the same elements, but for the sign of a negative zero.
pub proof fn law_relus_repeat(
    layers: Seq<LayerData>,
    input: TensorData,
    first: Option<TensorData>,
    second: Option<TensorData>,
)
    requires
        forall|k: int| 0 <= k < layers.len() ==> #[trigger] layers[k] is Relu,
        super::run::may_run_to(layers, input, first),
        super::run::may_run_to(layers, input, second),
    ensures
        first is Some,
        second is Some,
        first->0.dims == input.dims,
        second->0.dims == input.dims,
        forall|j: int|
            0 <= j < super::shape::count(input.dims) && input.bits(j) != 0x8000_0000 ==> #[trigger] first->0.bits(
                j,
            ) == second->0.bits(j),
{
    let one = choose|trace: Seq<TensorData>| #[trigger]
        super::run::runs_through(layers, input, trace, first);
    let two = choose|trace: Seq<TensorData>| #[trigger]
        super::run::runs_through(layers, input, trace, second);
    let n = layers.len() as int;
    lemma_trace_of_relus(layers, input, one, first, n);
    lemma_trace_of_relus(layers, input, two, second, n);
    if input.dims.len() == 1 {
        assert(input.unsqueezed().dims.skip(1) == input.dims);
    }
    assert forall|j: int|
        0 <= j < super::shape::count(input.dims) && input.bits(j) != 0x8000_0000 implies #[trigger] first->0.bits(
        j,
    ) == second->0.bits(j) by {
        assert(first->0.bits(j) == one[n].bits(j));
        assert(second->0.bits(j) == two[n].bits(j));
    }
}

} // verus!
