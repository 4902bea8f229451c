//! The calls into `candle_core`. Nothing in this file is proved: each function
//! makes one call, and its contract says what is relied on.
//!
//! Where the elements of a result are rounded, the rounding differs between
//! machines, so no contract says which numbers come out: a relation without a
//! definition stands for what the call may give.
//!
//! The contracts speak of tensors whose storage nobody writes to. What a file of
//! weights holds is stated for a little-endian machine: `candle` reads the
//! elements of a file in the byte order of the machine.

use candle_core::{DType, Error as CandleError, Tensor as CTensor};
use vstd::prelude::*;

verus! {

/// `candle_core::Tensor`, carried as an opaque value.
#[verifier::external_type_specification]
#[verifier::external_body]
pub struct ExTensor(CTensor);

/// `candle_core::Error`, carried as an opaque value.
#[verifier::external_type_specification]
#[verifier::external_body]
pub struct ExCandleError(CandleError);

/// `serde_json::Error`, carried as an opaque value.
#[verifier::external_type_specification]
#[verifier::external_body]
pub struct ExJsonError(serde_json::Error);

/// The extents of a tensor.
pub uninterp spec fn tensor_dims(tensor: CTensor) -> Seq<usize>;

/// The elements of a tensor in row-major order, as little-endian bytes.
pub uninterp spec fn tensor_bytes(tensor: CTensor) -> Seq<u8>;

/// The elements of a tensor are single-precision floats.
pub uninterp spec fn holds_singles(tensor: CTensor) -> bool;

/// The elements of a tensor are stored one after the other in row-major order.
pub uninterp spec fn stored_in_order(tensor: CTensor) -> bool;

/// The sizes that the header of a safetensors file gives, if it is such a header
/// and its offsets follow one another and agree with the shapes.
pub uninterp spec fn sizes_in(header: Seq<u8>) -> Option<HeaderSizes>;

/// What the named tensors of a safetensors file hold on a little-endian machine,
/// if the bytes are such a file and every element type in it is supported.
pub uninterp spec fn weights_in(file: Seq<u8>) -> Option<Map<Seq<char>, TensorData>>;

/// `Tensor::broadcast_matmul` may give `product`, or an error.
pub uninterp spec fn may_multiply_to(
    left: TensorData,
    right: TensorData,
    product: Option<TensorData>,
) -> bool;

/// `Tensor::broadcast_add` may give `sum`, or an error.
pub uninterp spec fn may_add_to(left: TensorData, right: TensorData, sum: Option<TensorData>) -> bool;

/// What a tensor holds.
#[verifier::ext_equal]
pub struct TensorData {
    /// The elements are single-precision floats.
    pub single: bool,
    /// The elements are stored one after the other in row-major order.
    pub row_major: bool,
    pub dims: Seq<usize>,
    /// The elements in row-major order, as little-endian bytes.
    pub bytes: Seq<u8>,
}

/// What `tensor` holds.
pub open spec fn data(tensor: CTensor) -> TensorData {
    TensorData {
        single: holds_singles(tensor),
        row_major: stored_in_order(tensor),
        dims: tensor_dims(tensor),
        bytes: tensor_bytes(tensor),
    }
}

/// What a call gave, without the reason for an error.
pub open spec fn outcome<E>(result: Result<CTensor, E>) -> Option<TensorData> {
    match result {
        Ok(tensor) => Some(data(tensor)),
        Err(_) => None,
    }
}

impl TensorData {
    /// The elements are single-precision floats, as many as the shape says, and
    /// they can be counted.
    pub open spec fn sound(self) -> bool {
        &&& self.single
        &&& super::shape::countable(self.dims)
        &&& self.bytes.len() == 4 * super::shape::count(self.dims)
    }

    /// The bits of element `i` of a tensor of single-precision floats.
    pub open spec fn bits(self, i: int) -> u32 {
        crate::memory::u32_at(self.bytes, 4 * i)
    }

    /// The tensor with other extents.
    pub open spec fn reshaped(self, dims: Seq<usize>) -> TensorData {
        TensorData { dims, ..self }
    }

    /// The tensor with one more extent, of one, in front.
    pub open spec fn unsqueezed(self) -> TensorData {
        TensorData { dims: seq![1usize] + self.dims, ..self }
    }

    /// The tensor without its first extent, if that is one. A tensor without
    /// extents has none to drop.
    pub open spec fn squeezed(self) -> Option<TensorData> {
        if self.dims.len() == 0 {
            None
        } else if self.dims[0] == 1 {
            Some(TensorData { dims: self.dims.skip(1), ..self })
        } else {
            Some(self)
        }
    }
}

/// The sizes in the header of a safetensors file.
pub struct HeaderSizes {
    /// Where the last tensor ends, counted from the end of the header.
    pub end: usize,
    /// The shapes of the tensors.
    pub shapes: Set<Seq<usize>>,
}

/// `shapes` are the shapes of a header, in some order.
pub open spec fn lists_shapes(shapes: Seq<Vec<usize>>, sizes: HeaderSizes) -> bool {
    &&& forall|i: int| 0 <= i < shapes.len() ==> sizes.shapes.contains((#[trigger] shapes[i])@)
    &&& forall|dims: Seq<usize>| #[trigger]
        sizes.shapes.contains(dims) ==> exists|i: int| 0 <= i < shapes.len() && (#[trigger] shapes[i])@ == dims
}

/// The length of the header of a safetensors file, which its first eight bytes
/// give.
pub open spec fn header_len(file: Seq<u8>) -> int {
    crate::memory::u32_at(file, 0) + 0x1_0000_0000 * crate::memory::u32_at(file, 4)
}

/// The header of a safetensors file, if the file is long enough to have one.
pub open spec fn header_in(file: Seq<u8>) -> Option<Seq<u8>> {
    if file.len() >= 8 && 8 + header_len(file) <= file.len() {
        Some(file.subrange(8, 8 + header_len(file)))
    } else {
        None
    }
}

/// The sizes in the header of a file, if it has a readable one, can be added and
/// multiplied up: no tensor ends beyond the file, and every shape is countable.
pub open spec fn measurable(file: Seq<u8>) -> bool {
    match header_in(file) {
        None => true,
        Some(header) => match sizes_in(header) {
            None => true,
            Some(sizes) => {
                &&& 8 + header.len() + sizes.end <= file.len()
                &&& forall|dims: Seq<usize>| #[trigger]
                    sizes.shapes.contains(dims) ==> super::shape::countable(dims)
            },
        },
    }
}

/// `turned` is `tensor` with its matrices transposed: the last two extents are
/// swapped, and each element moves to the other side of the diagonal.
pub open spec fn is_transpose(tensor: TensorData, turned: TensorData) -> bool {
    let rank = tensor.dims.len();
    let rows = tensor.dims[rank - 2] as int;
    let columns = tensor.dims[rank - 1] as int;
    &&& rank >= 2
    &&& turned.single == tensor.single
    &&& turned.dims == tensor.dims.take(rank - 2) + seq![tensor.dims[rank - 1], tensor.dims[rank - 2]]
    &&& tensor.sound() ==> {
        &&& turned.bytes.len() == tensor.bytes.len()
        &&& forall|matrix: int, row: int, column: int|
            0 <= matrix < super::shape::count(tensor.dims.take(rank - 2)) && 0 <= row < rows && 0
                <= column < columns ==> #[trigger] turned.bits(
                matrix * rows * columns + column * rows + row,
            ) == #[trigger] tensor.bits(matrix * rows * columns + row * columns + column)
    }
}

/// `after` are the bits of what is left of the single-precision float with the
/// bits `before` once it was clipped at zero: the float itself where it is zero
/// or more, and zero where it is negative or not a number. A negative zero may
/// keep its sign.
pub open spec fn is_clipped(before: u32, after: u32) -> bool {
    if before <= 0x7f80_0000 {
        after == before
    } else if before == 0x8000_0000 {
        after == 0 || after == 0x8000_0000
    } else {
        after == 0
    }
}

/// `clipped` is `tensor` with every element clipped at zero.
pub open spec fn is_relu(tensor: TensorData, clipped: TensorData) -> bool {
    &&& clipped.single == tensor.single
    &&& clipped.dims == tensor.dims
    &&& clipped.bytes.len() == tensor.bytes.len()
    &&& clipped.row_major == (tensor.row_major || super::shape::count(tensor.dims) > 0)
    &&& forall|i: int|
        0 <= i < super::shape::count(tensor.dims) ==> is_clipped(
            tensor.bits(i),
            #[trigger] clipped.bits(i),
        )
}

/// What is known of the shape of a product. Two matrices of single-precision
/// floats whose inner extents agree always have one, and so do a stack of
/// matrices in row-major order and a matrix.
pub open spec fn product_shaped(left: TensorData, right: TensorData, product: Option<TensorData>) -> bool {
    match product {
        Some(product) => {
            &&& Some(product.dims) == super::shape::product_dims(left.dims, right.dims)
            &&& product.single == left.single
            &&& product.row_major
            &&& product.single ==> product.bytes.len() == 4 * super::shape::count(product.dims)
        },
        None => {
            ||| !left.single
            ||| !right.single
            ||| left.dims.len() < 2
            ||| left.dims.len() > 2 && !left.row_major
            ||| right.dims.len() != 2
            ||| left.dims.last() != right.dims[0]
        },
    }
}

/// What is known of the shape of a sum. Two tensors of single-precision floats
/// whose shapes broadcast always have one. It is stored in row-major order where
/// it has elements, and where the first argument is and is not broadcast.
pub open spec fn sum_shaped(left: TensorData, right: TensorData, sum: Option<TensorData>) -> bool {
    match sum {
        Some(sum) => {
            &&& Some(sum.dims) == super::shape::joint(left.dims, right.dims)
            &&& sum.single == left.single
            &&& super::shape::count(sum.dims) > 0 || sum.dims == left.dims && left.row_major ==> sum.row_major
            &&& sum.single ==> sum.bytes.len() == 4 * super::shape::count(sum.dims)
        },
        None => !(left.single && right.single && super::shape::joint(left.dims, right.dims) is Some),
    }
}

/// `entries` are the named tensors of `weights`, in some order.
pub open spec fn lists(entries: Seq<(String, CTensor)>, weights: Map<Seq<char>, TensorData>) -> bool {
    &&& forall|i: int|
        0 <= i < entries.len() ==> {
            &&& weights.contains_key((#[trigger] entries[i]).0@)
            &&& weights[entries[i].0@] == data(entries[i].1)
        }
    &&& forall|name: Seq<char>| #[trigger]
        weights.contains_key(name) ==> exists|i: int| 0 <= i < entries.len() && #[trigger] entries[i].0@ == name
}

/// A device that tensors live on.
#[derive(Debug, Clone, Copy, PartialEq, Eq, Structural)]
pub enum Device {
    Cpu,
}

/// `serde_json::from_slice` reads the header of a safetensors file as
/// `safetensors::tensor::Metadata`, of which `data_len` gives the end of the last
/// tensor and `tensors` the shapes. It gives an error where the bytes are no such
/// header, or where the offsets do not follow one another or do not agree with
/// the shapes. The shapes come out in no particular order.
#[verifier::external_body]
pub(crate) fn read_sizes(header: &[u8]) -> (result: Result<(usize, Vec<Vec<usize>>), serde_json::Error>)
    ensures
        match result {
            Ok((end, shapes)) => {
                &&& sizes_in(header@) is Some
                &&& sizes_in(header@)->0.end == end
                &&& lists_shapes(shapes@, sizes_in(header@)->0)
            },
            Err(_) => sizes_in(header@) is None,
        },
{
    let metadata: safetensors::tensor::Metadata = serde_json::from_slice(header)?;
    let shapes = metadata.tensors().into_values().map(|info| info.shape.clone()).collect();
    Ok((metadata.data_len(), shapes))
}

/// `candle_core::safetensors::load_buffer` gives the named tensors of a
/// safetensors file, or an error where the bytes are no such file or hold a
/// tensor of an unsupported element type. They come out in no particular order,
/// each with as many elements as its shape says, in row-major order. The sizes in
/// the header are added and multiplied up on the way, which has to fit into a
/// machine word.
#[verifier::external_body]
pub(crate) fn load_weights(file: &[u8], device: Device) -> (result: Result<Vec<(String, CTensor)>, CandleError>)
    requires
        measurable(file@),
    ensures
        match result {
            Ok(entries) => {
                &&& weights_in(file@) is Some
                &&& lists(entries@, weights_in(file@)->0)
                &&& forall|i: int|
                    0 <= i < entries@.len() ==> {
                        &&& stored_in_order((#[trigger] entries@[i]).1)
                        &&& holds_singles(entries@[i].1) ==> data(entries@[i].1).sound()
                    }
            },
            Err(_) => weights_in(file@) is None,
        },
{
    let device = match device {
        Device::Cpu => candle_core::Device::Cpu,
    };
    let tensors = candle_core::safetensors::load_buffer(file, &device)?;
    Ok(tensors.into_iter().collect())
}

/// `Tensor::from_raw_buffer` gives the tensor of the asked shape whose elements
/// are the single-precision floats in the buffer, which it reads in the byte
/// order of the machine; in that order the buffer is made of the words. It gives
/// an error only where their number is not that of the shape.
#[verifier::external_body]
pub(crate) fn tensor_of_singles(words: &[u32], dims: &[usize], device: Device) -> (result: Result<
    CTensor,
    CandleError,
>)
    requires
        super::shape::countable(dims@),
        words@.len() == super::shape::count(dims@),
    ensures
        outcome(result) == Some(
            TensorData {
                single: true,
                row_major: true,
                dims: dims@,
                bytes: crate::memory::u32s_bytes(words@),
            },
        ),
{
    let device = match device {
        Device::Cpu => candle_core::Device::Cpu,
    };
    let bytes: Vec<u8> = words.iter().flat_map(|word| word.to_ne_bytes()).collect();
    CTensor::from_raw_buffer(&bytes, DType::F32, dims, &device)
}

/// `Tensor::clone` gives another pointer to the same tensor.
#[verifier::external_body]
pub(crate) fn share(tensor: &CTensor) -> (shared: CTensor)
    ensures
        shared == *tensor,
{
    tensor.clone()
}

/// `Tensor::dims` gives the extents.
#[verifier::external_body]
pub(crate) fn dims_of(tensor: &CTensor) -> (dims: Vec<usize>)
    ensures
        dims@ == tensor_dims(*tensor),
{
    tensor.dims().to_vec()
}

/// `Tensor::is_contiguous` says whether the elements are stored one after the
/// other in row-major order.
#[verifier::external_body]
pub(crate) fn is_row_major(tensor: &CTensor) -> (row_major: bool)
    requires
        super::shape::countable(tensor_dims(*tensor)),
    ensures
        row_major == stored_in_order(*tensor),
{
    tensor.is_contiguous()
}

/// `Tensor::dtype` gives the element type.
#[verifier::external_body]
pub(crate) fn has_singles(tensor: &CTensor) -> (single: bool)
    ensures
        single == holds_singles(*tensor),
{
    match tensor.dtype() {
        DType::F32 => true,
        _ => false,
    }
}

/// `Tensor::reshape` of a tensor in row-major order gives the same elements under
/// another shape. It gives an error only where the shapes differ in the number of
/// elements.
#[verifier::external_body]
pub(crate) fn reshape(tensor: &CTensor, dims: &[usize]) -> (result: Result<CTensor, CandleError>)
    requires
        stored_in_order(*tensor),
        super::shape::countable(tensor_dims(*tensor)),
        super::shape::countable(dims@),
        super::shape::count(dims@) == super::shape::count(tensor_dims(*tensor)),
    ensures
        outcome(result) == Some(data(*tensor).reshaped(dims@)),
{
    tensor.reshape(dims)
}

/// `Tensor::unsqueeze` at place zero puts an extent of one in front and leaves
/// the elements alone.
#[verifier::external_body]
pub(crate) fn unsqueeze(tensor: &CTensor) -> (result: Result<CTensor, CandleError>)
    ensures
        outcome(result) == Some(data(*tensor).unsqueezed()),
{
    tensor.unsqueeze(0)
}

/// `Tensor::squeeze` at place zero drops the first extent if it is one, leaves
/// the elements alone, and gives an error where there is no extent.
#[verifier::external_body]
pub(crate) fn squeeze(tensor: &CTensor) -> (result: Result<CTensor, CandleError>)
    ensures
        outcome(result) == data(*tensor).squeezed(),
{
    tensor.squeeze(0)
}

/// `Tensor::t` swaps the last two dimensions, and gives an error where there are
/// not as many.
#[verifier::external_body]
pub(crate) fn transpose(tensor: &CTensor) -> (result: Result<CTensor, CandleError>)
    ensures
        match result {
            Ok(turned) => is_transpose(data(*tensor), data(turned)),
            Err(_) => tensor_dims(*tensor).len() < 2,
        },
{
    tensor.t()
}

/// `Tensor::broadcast_matmul` multiplies two stacks of matrices. It gives an
/// error where the inner extents differ, the stacks do not broadcast, the
/// element types differ, or the memory layout of a stack is not supported; none
/// of these holds of two matrices of single-precision floats whose inner extents
/// agree, nor of a stack in row-major order and a matrix, which it multiplies as
/// one tall matrix. The elements of the result are those of the first argument's
/// type, in row-major order. Which numbers come out is not stated: the order of
/// summation, and with it the rounding, differs between machines.
#[verifier::external_body]
pub(crate) fn multiply(left: &CTensor, right: &CTensor) -> (result: Result<CTensor, CandleError>)
    requires
        holds_singles(*left),
        super::shape::product_fits(
            tensor_dims(*left),
            tensor_dims(*right),
            stored_in_order(*left),
            holds_singles(*right),
        ),
    ensures
        may_multiply_to(data(*left), data(*right), outcome(result)),
        product_shaped(data(*left), data(*right), outcome(result)),
{
    left.broadcast_matmul(right)
}

/// `Tensor::broadcast_add` adds two tensors element by element. It gives an
/// error where the shapes do not broadcast or the element types differ. The
/// elements of the result are those of the first argument's type. Which numbers
/// come out is not stated.
#[verifier::external_body]
pub(crate) fn sum(left: &CTensor, right: &CTensor) -> (result: Result<CTensor, CandleError>)
    requires
        holds_singles(*left),
        super::shape::sum_fits(tensor_dims(*left), tensor_dims(*right)),
    ensures
        may_add_to(data(*left), data(*right), outcome(result)),
        sum_shaped(data(*left), data(*right), outcome(result)),
{
    left.broadcast_add(right)
}

/// `Tensor::relu` takes the maximum of every element and zero. On
/// single-precision floats that is `f32::max`, which gives zero for what is not
/// a number, and either zero for a negative zero.
#[verifier::external_body]
pub(crate) fn relu(tensor: &CTensor) -> (result: Result<CTensor, CandleError>)
    requires
        data(*tensor).sound(),
    ensures
        match result {
            Ok(clipped) => is_relu(data(*tensor), data(clipped)),
            Err(_) => false,
        },
{
    tensor.relu()
}

/// `Tensor::flatten_all` puts all elements into one row.
#[verifier::external_body]
pub(crate) fn flatten(tensor: &CTensor) -> (result: Result<CTensor, CandleError>)
    requires
        data(*tensor).sound(),
    ensures
        match result {
            Ok(flat) => {
                &&& tensor_dims(flat) == seq![super::shape::count(tensor_dims(*tensor)) as usize]
                &&& tensor_bytes(flat) == tensor_bytes(*tensor)
                &&& holds_singles(flat)
            },
            Err(_) => false,
        },
{
    tensor.flatten_all()
}

/// `Tensor::to_dtype` gives the same tensor where it already has the element
/// type that is asked for.
#[verifier::external_body]
pub(crate) fn to_singles(tensor: &CTensor) -> (result: Result<CTensor, CandleError>)
    requires
        holds_singles(*tensor),
    ensures
        match result {
            Ok(converted) => holds_singles(converted) && data(converted) == data(*tensor),
            Err(_) => false,
        },
{
    tensor.to_dtype(DType::F32)
}

/// `Tensor::write_bytes` writes the elements in row-major order, as
/// little-endian bytes.
#[verifier::external_body]
pub(crate) fn bytes_of(tensor: &CTensor) -> (result: Result<Vec<u8>, CandleError>)
    requires
        data(*tensor).sound(),
    ensures
        match result {
            Ok(bytes) => bytes@ == tensor_bytes(*tensor),
            Err(_) => false,
        },
{
    let mut bytes = Vec::new();
    tensor.write_bytes(&mut bytes)?;
    Ok(bytes)
}

} // verus!
