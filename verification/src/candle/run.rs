//! Running a layer stack on an input.

use candle_core::Tensor as CTensor;
use vstd::prelude::*;

use super::backend::{Layer, LayerData, LayerStackGraph};
use super::fold::{folding, Folding};
use super::header::u32_of;
use super::ops::{Device, TensorData};
use super::shape::{can_add, can_multiply, element_count};
use crate::backend::{NnExecutionContext, NnGraph};
use crate::types::{NnErrno, Tensor, TensorType, TensorView};

verus! {

/// `y` is `sum`, if there is one, in the shape that `product` and `bias` broadcast
/// to, and `sum` may come of adding the two along fewer extents: those along which
/// they are broadcast in the same way are taken together.
pub open spec fn folded_sum_may_give(
    product: TensorData,
    bias: TensorData,
    sum: Option<TensorData>,
    y: Option<TensorData>,
) -> bool {
    let pairs = super::fold::folded(super::fold::paired(product.dims, bias.dims));
    let left = product.reshaped(super::fold::lefts(pairs));
    let right = bias.reshaped(super::fold::rights(pairs));
    &&& super::ops::may_add_to(left, right, sum)
    &&& super::ops::sum_shaped(left, right, sum)
    &&& match (sum, super::shape::joint(product.dims, bias.dims)) {
        (Some(sum), Some(dims)) => y == Some(sum.reshaped(dims)),
        _ => y is None,
    }
}

/// Adding a bias, if there is one, to `product` may give `y`, or an error. Where
/// the sum has more extents than two tensors can be walked along, it is made along
/// fewer.
pub open spec fn bias_may_give(product: TensorData, bias: Option<TensorData>, y: Option<TensorData>) -> bool {
    match bias {
        None => y == Some(product),
        Some(bias) => if super::shape::sum_fits(product.dims, bias.dims) {
            &&& super::ops::may_add_to(product, bias, y)
            &&& super::ops::sum_shaped(product, bias, y)
        } else if bias.row_major && super::fold::folds(product.dims, bias.dims) {
            exists|sum: Option<TensorData>| #[trigger] folded_sum_may_give(product, bias, sum, y)
        } else {
            y is None
        },
    }
}

/// A linear layer whose weight, transposed, is `turned` may give `y` for `x`: the
/// product `product`, plus the bias.
pub open spec fn linear_may_give(
    turned: TensorData,
    bias: Option<TensorData>,
    x: TensorData,
    product: Option<TensorData>,
    y: Option<TensorData>,
) -> bool {
    if !super::shape::product_fits(x.dims, turned.dims, x.row_major, turned.single) {
        y is None
    } else {
        &&& super::ops::may_multiply_to(x, turned, product)
        &&& super::ops::product_shaped(x, turned, product)
        &&& match product {
            None => y is None,
            Some(product) => bias_may_give(product, bias, y),
        }
    }
}

/// A layer may give `y` for `x`, or an error.
pub open spec fn layer_may_give(layer: LayerData, x: TensorData, y: Option<TensorData>) -> bool {
    match layer {
        LayerData::Relu => y is Some && super::ops::is_relu(x, y->0),
        LayerData::Linear { weight, bias } => if weight.dims.len() < 2 {
            y is None
        } else {
            exists|turned: TensorData, product: Option<TensorData>|
                super::ops::is_transpose(weight, turned) && #[trigger] linear_may_give(
                    turned,
                    bias,
                    x,
                    product,
                    y,
                )
        },
    }
}

/// What the first layer is given: a vector is read as a batch of one.
pub open spec fn entered(input: TensorData) -> TensorData {
    if input.dims.len() == 1 {
        input.unsqueezed()
    } else {
        input
    }
}

/// What becomes of what the last layer gave: a vector is handed back for a
/// vector.
pub open spec fn left(input: TensorData, last: TensorData) -> Option<TensorData> {
    if input.dims.len() == 1 {
        last.squeezed()
    } else {
        Some(last)
    }
}

/// A run of `layers` on `input` may pass through `trace`, which begins with what
/// the first layer is given and goes on with what each layer gave, and come to
/// `output`. It ends early at a layer that gives an error.
pub open spec fn runs_through(
    layers: Seq<LayerData>,
    input: TensorData,
    trace: Seq<TensorData>,
    output: Option<TensorData>,
) -> bool {
    &&& 1 <= trace.len() <= layers.len() + 1
    &&& trace[0] == entered(input)
    &&& forall|i: int|
        0 <= i < trace.len() - 1 ==> layer_may_give(#[trigger] layers[i], trace[i], Some(trace[i + 1]))
    &&& if trace.len() == layers.len() + 1 {
        output == left(input, trace.last())
    } else {
        output is None && layer_may_give(layers[trace.len() - 1], trace.last(), None)
    }
}

/// A run of `layers` on `input` may come to `output`, or to an error.
pub open spec fn may_run_to(layers: Seq<LayerData>, input: TensorData, output: Option<TensorData>) -> bool {
    exists|trace: Seq<TensorData>| #[trigger] runs_through(layers, input, trace, output)
}

impl Layer {
    /// Runs the layer on `x`.
    fn forward(&self, x: &CTensor) -> (result: Result<CTensor, NnErrno>)
        requires
            super::ops::data(*x).sound(),
        ensures
            layer_may_give(self@, super::ops::data(*x), super::ops::outcome(result)),
            match result {
                Ok(y) => super::ops::data(y).sound(),
                Err(errno) => errno == NnErrno::RuntimeError,
            },
    {
        match self {
            Layer::Relu => match super::ops::relu(x) {
                Ok(clipped) => Ok(clipped),
                Err(_) => Err(NnErrno::RuntimeError),
            },
            Layer::Linear { weight, bias } => Self::linear(weight, bias, x),
        }
    }

    /// Runs a linear layer on `x`. It fails where the product or the sum fails,
    /// and where it would be too large to be made.
    fn linear(weight: &CTensor, bias: &Option<CTensor>, x: &CTensor) -> (result: Result<CTensor, NnErrno>)
        requires
            super::ops::data(*x).sound(),
        ensures
            layer_may_give(
                LayerData::Linear { weight: super::ops::data(*weight), bias: held(*bias) },
                super::ops::data(*x),
                super::ops::outcome(result),
            ),
            match result {
                Ok(y) => super::ops::data(y).sound(),
                Err(errno) => errno == NnErrno::RuntimeError,
            },
    {
        let turned = match super::ops::transpose(weight) {
            Ok(turned) => turned,
            Err(_) => return Err(NnErrno::RuntimeError),
        };
        let row_major: bool = super::ops::is_row_major(x);
        let single: bool = super::ops::has_singles(&turned);
        if !can_multiply(&super::ops::dims_of(x), &super::ops::dims_of(&turned), row_major, single) {
            assert(linear_may_give(super::ops::data(turned), held(*bias), super::ops::data(*x), None, None));
            return Err(NnErrno::RuntimeError);
        }
        let product = match super::ops::multiply(x, &turned) {
            Ok(product) => product,
            Err(_) => {
                assert(linear_may_give(
                    super::ops::data(turned),
                    held(*bias),
                    super::ops::data(*x),
                    None,
                    None,
                ));
                return Err(NnErrno::RuntimeError);
            },
        };
        let ghost multiplied = Some(super::ops::data(product));
        let result = Self::plus(product, bias);
        assert(linear_may_give(
            super::ops::data(turned),
            held(*bias),
            super::ops::data(*x),
            multiplied,
            super::ops::outcome(result),
        ));
        result
    }

    /// Adds a bias, if there is one, to a product.
    fn plus(product: CTensor, bias: &Option<CTensor>) -> (result: Result<CTensor, NnErrno>)
        requires
            super::ops::data(product).sound(),
            super::ops::stored_in_order(product),
        ensures
            bias_may_give(super::ops::data(product), held(*bias), super::ops::outcome(result)),
            match result {
                Ok(y) => super::ops::data(y).sound(),
                Err(errno) => errno == NnErrno::RuntimeError,
            },
    {
        let bias: &CTensor = match bias {
            None => return Ok(product),
            Some(bias) => bias,
        };
        let left: Vec<usize> = super::ops::dims_of(&product);
        let right: Vec<usize> = super::ops::dims_of(bias);
        if can_add(&left, &right) {
            return match super::ops::sum(&product, bias) {
                Ok(sum) => Ok(sum),
                Err(_) => Err(NnErrno::RuntimeError),
            };
        }
        match folding(&left, &right) {
            Some(folding) => {
                proof {
                    super::fold::lemma_folds(left@, right@);
                }
                if super::ops::is_row_major(bias) {
                    Self::folded_sum(&product, bias, &folding)
                } else {
                    Err(NnErrno::RuntimeError)
                }
            },
            None => Err(NnErrno::RuntimeError),
        }
    }

    /// Adds a bias to a product along the extents of `folding`.
    fn folded_sum(product: &CTensor, bias: &CTensor, folding: &Folding) -> (result: Result<CTensor, NnErrno>)
        requires
            super::ops::data(*product).sound(),
            super::ops::stored_in_order(*product),
            super::ops::stored_in_order(*bias),
            folding.fits(super::ops::tensor_dims(*product), super::ops::tensor_dims(*bias)),
        ensures
            exists|sum: Option<TensorData>| #[trigger]
                folded_sum_may_give(
                    super::ops::data(*product),
                    super::ops::data(*bias),
                    sum,
                    super::ops::outcome(result),
                ),
            match result {
                Ok(y) => super::ops::data(y).sound(),
                Err(errno) => errno == NnErrno::RuntimeError,
            },
    {
        proof {
            super::fold::lemma_folds(super::ops::tensor_dims(*product), super::ops::tensor_dims(*bias));
        }
        let left = match super::ops::reshape(product, folding.left.as_slice()) {
            Ok(left) => left,
            Err(_) => return Err(NnErrno::RuntimeError),
        };
        let right = match super::ops::reshape(bias, folding.right.as_slice()) {
            Ok(right) => right,
            Err(_) => return Err(NnErrno::RuntimeError),
        };
        let sum = match super::ops::sum(&left, &right) {
            Ok(sum) => sum,
            Err(_) => {
                assert(folded_sum_may_give(
                    super::ops::data(*product),
                    super::ops::data(*bias),
                    None,
                    None,
                ));
                return Err(NnErrno::RuntimeError);
            },
        };
        let result = match super::ops::reshape(&sum, folding.sum.as_slice()) {
            Ok(result) => result,
            Err(_) => return Err(NnErrno::RuntimeError),
        };
        assert(folded_sum_may_give(
            super::ops::data(*product),
            super::ops::data(*bias),
            Some(super::ops::data(sum)),
            Some(super::ops::data(result)),
        ));
        Ok(result)
    }
}

/// Another stack of the same layers.
fn share_layers(layers: &Vec<Layer>) -> (shared: Vec<Layer>)
    ensures
        super::backend::stack(shared@) == super::backend::stack(layers@),
{
    let mut shared: Vec<Layer> = Vec::with_capacity(layers.len());
    let mut i: usize = 0;
    while i < layers.len()
        invariant
            i <= layers.len(),
            shared@.len() == i,
            forall|j: int| 0 <= j < i ==> (#[trigger] shared@[j])@ == layers@[j]@,
        decreases layers.len() - i,
    {
        let layer = match &layers[i] {
            Layer::Relu => Layer::Relu,
            Layer::Linear { weight, bias } => Layer::Linear {
                weight: super::ops::share(weight),
                bias: match bias {
                    Some(bias) => Some(super::ops::share(bias)),
                    None => None,
                },
            },
        };
        shared.push(layer);
        i += 1;
    }
    shared
}

/// What an execution context holds.
#[verifier::ext_equal]
pub struct ContextView {
    pub layers: Seq<LayerData>,
    pub input: Option<TensorData>,
    pub output: Option<TensorData>,
}

/// What an optional tensor holds.
pub open spec fn held(tensor: Option<CTensor>) -> Option<TensorData> {
    match tensor {
        Some(tensor) => Some(super::ops::data(tensor)),
        None => None,
    }
}

/// An execution context of a layer stack: one input and one output, both of
/// single-precision floats.
#[derive(Debug)]
pub struct LayerStackExecutionContext {
    layers: Vec<Layer>,
    device: Device,
    input: Option<CTensor>,
    output: Option<CTensor>,
}

impl View for LayerStackExecutionContext {
    type V = ContextView;

    closed spec fn view(&self) -> ContextView {
        ContextView {
            layers: super::backend::stack(self.layers@),
            input: held(self.input),
            output: held(self.output),
        }
    }
}

impl LayerStackExecutionContext {
    #[verifier::type_invariant]
    spec fn sound(self) -> bool {
        &&& self.input is Some ==> super::ops::data(self.input->0).sound()
        &&& self.output is Some ==> super::ops::data(self.output->0).sound()
    }
}

/// The tensor that `set_input` makes of what a guest passes, or why there is
/// none.
pub open spec fn input_of(index: u32, tensor: TensorView) -> Result<TensorData, NnErrno> {
    let dims = tensor.dimensions.map_values(|extent: u32| extent as usize);
    if index != 0 {
        Err(NnErrno::InvalidArgument)
    } else if tensor.ty != TensorType::F32 {
        Err(NnErrno::UnsupportedOperation)
    } else if !super::shape::countable(dims) || tensor.data.len() != 4 * super::shape::count(dims) {
        Err(NnErrno::InvalidArgument)
    } else {
        Ok(TensorData { single: true, row_major: true, dims, bytes: tensor.data })
    }
}

/// What a guest's dimensions are as extents.
fn extents(dimensions: &Vec<u32>) -> (dims: Vec<usize>)
    ensures
        dims@ == dimensions@.map_values(|extent: u32| extent as usize),
{
    let mut dims: Vec<usize> = Vec::with_capacity(dimensions.len());
    let mut i: usize = 0;
    while i < dimensions.len()
        invariant
            i <= dimensions.len(),
            dims@ == dimensions@.take(i as int).map_values(|extent: u32| extent as usize),
        decreases dimensions.len() - i,
    {
        dims.push(dimensions[i] as usize);
        i += 1;
    }
    assert(dimensions@.take(i as int) == dimensions@);
    dims
}

/// The little-endian integers that `data` is made of.
fn words_of(data: &Vec<u8>) -> (words: Vec<u32>)
    requires
        data@.len() % 4 == 0,
    ensures
        words@.len() == data@.len() / 4,
        crate::memory::u32s_bytes(words@) == data@,
{
    let size: usize = data.len();
    let len: usize = size / 4;
    let mut words: Vec<u32> = Vec::with_capacity(len);
    let mut i: usize = 0;
    while i < len
        invariant
            i <= len,
            size == data@.len(),
            len == size / 4,
            words@.len() == i,
            forall|j: int| 0 <= j < i ==> #[trigger] words@[j] == crate::memory::u32_at(data@, 4 * j),
        decreases len - i,
    {
        words.push(u32_of(data.as_slice(), 4 * i));
        i += 1;
    }
    proof {
        let bytes = crate::memory::u32s_bytes(words@);
        assert forall|j: int| 0 <= j < data@.len() implies #[trigger] bytes[j] == data@[j] by {
            let word = j / 4;
            assert(words@[word] == crate::memory::u32_at(data@, 4 * word));
            crate::memory::lemma_bytes_of_u32(data@, 4 * word);
            assert(j == 4 * word + j % 4);
        }
        assert(bytes =~= data@);
    }
    words
}

impl NnExecutionContext for LayerStackExecutionContext {
    open spec fn set_input_outcome(
        before: LayerStackExecutionContext,
        index: u32,
        tensor: TensorView,
        after: LayerStackExecutionContext,
        result: Result<(), NnErrno>,
    ) -> bool {
        match input_of(index, tensor) {
            Err(errno) => result == Err::<(), NnErrno>(errno) && after@ == before@,
            Ok(input) => result == Ok::<(), NnErrno>(()) && after@ == (ContextView {
                input: Some(input),
                ..before@
            }),
        }
    }

    open spec fn compute_outcome(
        before: LayerStackExecutionContext,
        after: LayerStackExecutionContext,
        result: Result<(), NnErrno>,
    ) -> bool {
        match before@.input {
            None => result == Err::<(), NnErrno>(NnErrno::InvalidArgument) && after@ == before@,
            Some(input) => exists|output: Option<TensorData>| #[trigger]
                may_run_to(before@.layers, input, output) && match output {
                    None => result == Err::<(), NnErrno>(NnErrno::RuntimeError) && after@ == before@,
                    Some(output) => result == Ok::<(), NnErrno>(()) && after@ == (ContextView {
                        output: Some(output),
                        ..before@
                    }),
                },
        }
    }

    open spec fn get_output_outcome(self, index: u32, result: Result<Seq<u8>, NnErrno>) -> bool {
        match self@.output {
            Some(output) if index == 0 => result == Ok::<Seq<u8>, NnErrno>(output.bytes),
            _ => result == Err::<Seq<u8>, NnErrno>(NnErrno::InvalidArgument),
        }
    }

    fn set_input(&mut self, index: u32, tensor: Tensor) -> (result: Result<(), NnErrno>) {
        proof {
            use_type_invariant(&*self);
        }
        if index != 0 {
            return Err(NnErrno::InvalidArgument);
        }
        if tensor.ty != TensorType::F32 {
            return Err(NnErrno::UnsupportedOperation);
        }
        let dims: Vec<usize> = extents(&tensor.dimensions);
        let fits = match element_count(&dims) {
            Some(numel) => tensor.data.len() % 4 == 0 && tensor.data.len() / 4 == numel,
            None => false,
        };
        if !fits {
            return Err(NnErrno::InvalidArgument);
        }
        let words: Vec<u32> = words_of(&tensor.data);
        match super::ops::tensor_of_singles(words.as_slice(), dims.as_slice(), self.device) {
            Ok(input) => {
                self.input = Some(input);
                Ok(())
            },
            Err(_) => Err(NnErrno::RuntimeError),
        }
    }

    fn compute(&mut self) -> (result: Result<(), NnErrno>) {
        proof {
            use_type_invariant(&*self);
        }
        let result = run(&self.layers, &self.input);
        assert(self@.input is Some ==> may_run_to(
            self@.layers,
            self@.input->0,
            super::ops::outcome(result),
        ));
        match result {
            Ok(output) => {
                self.output = Some(output);
                Ok(())
            },
            Err(errno) => Err(errno),
        }
    }

    fn get_output(&self, index: u32) -> (result: Result<Vec<u8>, NnErrno>) {
        proof {
            use_type_invariant(self);
        }
        if index != 0 {
            return Err(NnErrno::InvalidArgument);
        }
        let output = match &self.output {
            Some(output) => output,
            None => return Err(NnErrno::InvalidArgument),
        };
        let flat = match super::ops::flatten(output) {
            Ok(flat) => flat,
            Err(_) => return Err(NnErrno::RuntimeError),
        };
        proof {
            let count = super::shape::count(super::ops::tensor_dims(*output));
            assert(super::ops::tensor_dims(*output).take(super::ops::tensor_dims(*output).len() as int)
                == super::ops::tensor_dims(*output));
            super::shape::lemma_single_extent(count as usize);
        }
        let singles = match super::ops::to_singles(&flat) {
            Ok(singles) => singles,
            Err(_) => return Err(NnErrno::RuntimeError),
        };
        match super::ops::bytes_of(&singles) {
            Ok(bytes) => Ok(bytes),
            Err(_) => Err(NnErrno::RuntimeError),
        }
    }
}

/// Runs `layers` on `input`.
fn run(layers: &Vec<Layer>, input: &Option<CTensor>) -> (result: Result<CTensor, NnErrno>)
    requires
        input is Some ==> super::ops::data(input->0).sound(),
    ensures
        match held(*input) {
            None => result == Err::<CTensor, NnErrno>(NnErrno::InvalidArgument),
            Some(input) => {
                &&& may_run_to(super::backend::stack(layers@), input, super::ops::outcome(result))
                &&& match result {
                    Ok(output) => super::ops::data(output).sound(),
                    Err(errno) => errno == NnErrno::RuntimeError,
                }
            },
        },
{
    let first: &CTensor = match input {
        Some(first) => first,
        None => return Err(NnErrno::InvalidArgument),
    };
    let ghost start = super::ops::data(*first);
    let ghost stack = super::backend::stack(layers@);
    let is_vector: bool = super::ops::dims_of(first).len() == 1;
    proof {
        super::shape::lemma_leading_one(start.dims);
    }
    let mut x: CTensor = if is_vector {
        match super::ops::unsqueeze(first) {
            Ok(x) => x,
            Err(_) => return Err(NnErrno::RuntimeError),
        }
    } else {
        super::ops::share(first)
    };
    let ghost mut trace = seq![super::ops::data(x)];
    let mut i: usize = 0;
    while i < layers.len()
        invariant
            i <= layers.len(),
            held(*input) == Some(start),
            stack == super::backend::stack(layers@),
            super::ops::data(x).sound(),
            trace.len() == i + 1,
            trace[0] == entered(start),
            trace.last() == super::ops::data(x),
            forall|j: int|
                0 <= j < i ==> layer_may_give(#[trigger] stack[j], trace[j], Some(trace[j + 1])),
        decreases layers.len() - i,
    {
        let ghost given = super::ops::data(x);
        match layers[i].forward(&x) {
            Ok(y) => {
                x = y;
                proof {
                    let before = trace;
                    trace = trace.push(super::ops::data(x));
                    assert forall|j: int| 0 <= j < i + 1 implies layer_may_give(
                        #[trigger] stack[j],
                        trace[j],
                        Some(trace[j + 1]),
                    ) by {
                        if j < i {
                            assert(trace[j] == before[j]);
                            assert(trace[j + 1] == before[j + 1]);
                        }
                    }
                }
            },
            Err(_) => {
                assert(runs_through(stack, start, trace, None));
                return Err(NnErrno::RuntimeError);
            },
        }
        i += 1;
    }
    let ghost last = super::ops::data(x);
    if is_vector {
        match super::ops::squeeze(&x) {
            Ok(y) => {
                x = y;
                proof {
                    if last.dims[0] == 1 {
                        assert(seq![1usize] + last.dims.skip(1) == last.dims);
                        super::shape::lemma_leading_one(last.dims.skip(1));
                    }
                }
            },
            Err(_) => {
                assert(runs_through(stack, start, trace, None));
                return Err(NnErrno::RuntimeError);
            },
        }
    }
    assert(runs_through(stack, start, trace, Some(super::ops::data(x))));
    Ok(x)
}

impl NnGraph for LayerStackGraph {
    type Context = LayerStackExecutionContext;

    open spec fn init_outcome(self, result: Result<LayerStackExecutionContext, NnErrno>) -> bool {
        &&& result is Ok
        &&& result->Ok_0@ == (ContextView { layers: self@, input: None, output: None })
    }

    fn init_execution_context(&self) -> (result: Result<LayerStackExecutionContext, NnErrno>) {
        Ok(
            LayerStackExecutionContext {
                layers: share_layers(self.layers()),
                device: self.device(),
                input: None,
                output: None,
            },
        )
    }
}

} // verus!
