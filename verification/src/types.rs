//! Wire types of the `wasi_ephemeral_nn` ABI: errnos, and the tags that stand
//! for encodings, execution targets and element types.

use vstd::prelude::*;

verus! {

/// `$nn_errno`.
#[derive(Debug, Clone, Copy, PartialEq, Eq, Structural)]
pub enum NnErrno {
    Success,
    InvalidArgument,
    InvalidEncoding,
    MissingMemory,
    Busy,
    RuntimeError,
    UnsupportedOperation,
    TooLarge,
    NotFound,
}

impl NnErrno {
    /// The tag of an errno on the wire.
    pub open spec fn code(self) -> u32 {
        match self {
            NnErrno::Success => 0,
            NnErrno::InvalidArgument => 1,
            NnErrno::InvalidEncoding => 2,
            NnErrno::MissingMemory => 3,
            NnErrno::Busy => 4,
            NnErrno::RuntimeError => 5,
            NnErrno::UnsupportedOperation => 6,
            NnErrno::TooLarge => 7,
            NnErrno::NotFound => 8,
        }
    }

    /// The tag as the `u32` that a host function returns.
    pub fn to_u32(self) -> (code: u32)
        ensures
            code == self.code(),
    {
        match self {
            NnErrno::Success => 0,
            NnErrno::InvalidArgument => 1,
            NnErrno::InvalidEncoding => 2,
            NnErrno::MissingMemory => 3,
            NnErrno::Busy => 4,
            NnErrno::RuntimeError => 5,
            NnErrno::UnsupportedOperation => 6,
            NnErrno::TooLarge => 7,
            NnErrno::NotFound => 8,
        }
    }
}

/// What a host function returns for the outcome of its body: the tag of
/// `Success`, or that of the error.
pub open spec fn nn_return(result: Result<(), NnErrno>) -> u32 {
    match result {
        Ok(()) => NnErrno::Success.code(),
        Err(errno) => errno.code(),
    }
}

/// The return value of a host function whose body came out as `result`.
pub fn nn_errno_of(result: Result<(), NnErrno>) -> (code: u32)
    ensures
        code == nn_return(result),
{
    match result {
        Ok(()) => NnErrno::Success.to_u32(),
        Err(errno) => errno.to_u32(),
    }
}

/// `$graph_encoding`.
#[derive(Debug, Clone, Copy, PartialEq, Eq, Structural)]
pub enum GraphEncoding {
    Openvino,
    Onnx,
    Tensorflow,
    Pytorch,
    Tensorflowlite,
    Autodetect,
}

impl GraphEncoding {
    /// The tag of an encoding on the wire.
    pub open spec fn tag(self) -> u8 {
        match self {
            GraphEncoding::Openvino => 0,
            GraphEncoding::Onnx => 1,
            GraphEncoding::Tensorflow => 2,
            GraphEncoding::Pytorch => 3,
            GraphEncoding::Tensorflowlite => 4,
            GraphEncoding::Autodetect => 5,
        }
    }

    /// What a tag stands for.
    pub open spec fn of_tag(tag: u8) -> Result<GraphEncoding, NnErrno> {
        match tag {
            0 => Ok(GraphEncoding::Openvino),
            1 => Ok(GraphEncoding::Onnx),
            2 => Ok(GraphEncoding::Tensorflow),
            3 => Ok(GraphEncoding::Pytorch),
            4 => Ok(GraphEncoding::Tensorflowlite),
            5 => Ok(GraphEncoding::Autodetect),
            _ => Err(NnErrno::InvalidArgument),
        }
    }
}

impl TryFrom<u8> for GraphEncoding {
    type Error = NnErrno;

    fn try_from(v: u8) -> (result: Result<Self, NnErrno>) {
        match v {
            0 => Ok(GraphEncoding::Openvino),
            1 => Ok(GraphEncoding::Onnx),
            2 => Ok(GraphEncoding::Tensorflow),
            3 => Ok(GraphEncoding::Pytorch),
            4 => Ok(GraphEncoding::Tensorflowlite),
            5 => Ok(GraphEncoding::Autodetect),
            _ => Err(NnErrno::InvalidArgument),
        }
    }
}

impl vstd::std_specs::convert::TryFromSpecImpl<u8> for GraphEncoding {
    open spec fn obeys_try_from_spec() -> bool {
        true
    }

    open spec fn try_from_spec(v: u8) -> Result<Self, NnErrno> {
        GraphEncoding::of_tag(v)
    }
}

/// `$execution_target`.
#[derive(Debug, Clone, Copy, PartialEq, Eq, Structural)]
pub enum ExecutionTarget {
    Cpu,
    Gpu,
    Tpu,
}

impl ExecutionTarget {
    /// The tag of a target on the wire.
    pub open spec fn tag(self) -> u8 {
        match self {
            ExecutionTarget::Cpu => 0,
            ExecutionTarget::Gpu => 1,
            ExecutionTarget::Tpu => 2,
        }
    }

    /// What a tag stands for.
    pub open spec fn of_tag(tag: u8) -> Result<ExecutionTarget, NnErrno> {
        match tag {
            0 => Ok(ExecutionTarget::Cpu),
            1 => Ok(ExecutionTarget::Gpu),
            2 => Ok(ExecutionTarget::Tpu),
            _ => Err(NnErrno::InvalidArgument),
        }
    }
}

impl TryFrom<u8> for ExecutionTarget {
    type Error = NnErrno;

    fn try_from(v: u8) -> (result: Result<Self, NnErrno>) {
        match v {
            0 => Ok(ExecutionTarget::Cpu),
            1 => Ok(ExecutionTarget::Gpu),
            2 => Ok(ExecutionTarget::Tpu),
            _ => Err(NnErrno::InvalidArgument),
        }
    }
}

impl vstd::std_specs::convert::TryFromSpecImpl<u8> for ExecutionTarget {
    open spec fn obeys_try_from_spec() -> bool {
        true
    }

    open spec fn try_from_spec(v: u8) -> Result<Self, NnErrno> {
        ExecutionTarget::of_tag(v)
    }
}

/// `$tensor_type`.
#[derive(Debug, Clone, Copy, PartialEq, Eq, Structural)]
pub enum TensorType {
    F16,
    F32,
    F64,
    U8,
    I32,
    I64,
}

impl TensorType {
    /// The tag of an element type on the wire.
    pub open spec fn tag(self) -> u8 {
        match self {
            TensorType::F16 => 0,
            TensorType::F32 => 1,
            TensorType::F64 => 2,
            TensorType::U8 => 3,
            TensorType::I32 => 4,
            TensorType::I64 => 5,
        }
    }

    /// What a tag stands for.
    pub open spec fn of_tag(tag: u8) -> Result<TensorType, NnErrno> {
        match tag {
            0 => Ok(TensorType::F16),
            1 => Ok(TensorType::F32),
            2 => Ok(TensorType::F64),
            3 => Ok(TensorType::U8),
            4 => Ok(TensorType::I32),
            5 => Ok(TensorType::I64),
            _ => Err(NnErrno::InvalidArgument),
        }
    }
}

impl TryFrom<u8> for TensorType {
    type Error = NnErrno;

    fn try_from(v: u8) -> (result: Result<Self, NnErrno>) {
        match v {
            0 => Ok(TensorType::F16),
            1 => Ok(TensorType::F32),
            2 => Ok(TensorType::F64),
            3 => Ok(TensorType::U8),
            4 => Ok(TensorType::I32),
            5 => Ok(TensorType::I64),
            _ => Err(NnErrno::InvalidArgument),
        }
    }
}

impl vstd::std_specs::convert::TryFromSpecImpl<u8> for TensorType {
    open spec fn obeys_try_from_spec() -> bool {
        true
    }

    open spec fn try_from_spec(v: u8) -> Result<Self, NnErrno> {
        TensorType::of_tag(v)
    }
}

/// `$tensor`: dimensions, element type and raw little-endian element bytes.
#[derive(Debug, Clone)]
pub struct Tensor {
    pub dimensions: Vec<u32>,
    pub ty: TensorType,
    pub data: Vec<u8>,
}

/// What a [`Tensor`] holds.
#[verifier::ext_equal]
pub struct TensorView {
    pub dimensions: Seq<u32>,
    pub ty: TensorType,
    pub data: Seq<u8>,
}

impl View for Tensor {
    type V = TensorView;

    open spec fn view(&self) -> TensorView {
        TensorView { dimensions: self.dimensions@, ty: self.ty, data: self.data@ }
    }
}

/// No two errnos share a tag, and only `Success` has tag zero.
pub proof fn law_errno_codes_are_distinct(a: NnErrno, b: NnErrno)
    ensures
        a.code() == b.code() <==> a == b,
        a.code() == 0 <==> a == NnErrno::Success,
{
}

/// A tag decodes to the value that carries it and to nothing else. A tag that
/// no value carries is an invalid argument.
pub proof fn law_tags_round_trip(
    tag: u8,
    encoding: GraphEncoding,
    target: ExecutionTarget,
    ty: TensorType,
)
    ensures
        GraphEncoding::of_tag(tag) == Ok::<GraphEncoding, NnErrno>(encoding) <==> encoding.tag() == tag,
        GraphEncoding::of_tag(tag) is Err <==> tag > 5,
        GraphEncoding::of_tag(tag) is Err ==> GraphEncoding::of_tag(tag)->Err_0 == NnErrno::InvalidArgument,
        ExecutionTarget::of_tag(tag) == Ok::<ExecutionTarget, NnErrno>(target) <==> target.tag() == tag,
        ExecutionTarget::of_tag(tag) is Err <==> tag > 2,
        ExecutionTarget::of_tag(tag) is Err ==> ExecutionTarget::of_tag(tag)->Err_0
            == NnErrno::InvalidArgument,
        TensorType::of_tag(tag) == Ok::<TensorType, NnErrno>(ty) <==> ty.tag() == tag,
        TensorType::of_tag(tag) is Err <==> tag > 5,
        TensorType::of_tag(tag) is Err ==> TensorType::of_tag(tag)->Err_0 == NnErrno::InvalidArgument,
{
}

/// The tag that each errno has on the wire, and what a host function returns for
/// each outcome.
pub proof fn law_errnos_have_their_wire_tags(errno: NnErrno, code: u32, result: Result<(), NnErrno>, returned: u32)
    requires
        call_ensures(NnErrno::to_u32, (errno,), code),
        call_ensures(nn_errno_of, (result,), returned),
    ensures
        code == errno.code(),
        NnErrno::Success.code() == 0,
        NnErrno::InvalidArgument.code() == 1,
        NnErrno::InvalidEncoding.code() == 2,
        NnErrno::MissingMemory.code() == 3,
        NnErrno::Busy.code() == 4,
        NnErrno::RuntimeError.code() == 5,
        NnErrno::UnsupportedOperation.code() == 6,
        NnErrno::TooLarge.code() == 7,
        NnErrno::NotFound.code() == 8,
        result is Ok ==> returned == 0,
        result is Err ==> returned == result->Err_0.code(),
{
}

/// The values that each wire tag stands for, in the order of the tags.
pub proof fn law_tags_stand_for_their_values(
    tag: u8,
    encoding: Result<GraphEncoding, NnErrno>,
    target: Result<ExecutionTarget, NnErrno>,
    ty: Result<TensorType, NnErrno>,
)
    requires
        call_ensures(<GraphEncoding as TryFrom<u8>>::try_from, (tag,), encoding),
        call_ensures(<ExecutionTarget as TryFrom<u8>>::try_from, (tag,), target),
        call_ensures(<TensorType as TryFrom<u8>>::try_from, (tag,), ty),
    ensures
        encoding == (if tag < 6 {
            Ok(
                seq![
                    GraphEncoding::Openvino,
                    GraphEncoding::Onnx,
                    GraphEncoding::Tensorflow,
                    GraphEncoding::Pytorch,
                    GraphEncoding::Tensorflowlite,
                    GraphEncoding::Autodetect,
                ][tag as int],
            )
        } else {
            Err(NnErrno::InvalidArgument)
        }),
        target == (if tag < 3 {
            Ok(seq![ExecutionTarget::Cpu, ExecutionTarget::Gpu, ExecutionTarget::Tpu][tag as int])
        } else {
            Err(NnErrno::InvalidArgument)
        }),
        ty == (if tag < 6 {
            Ok(
                seq![
                    TensorType::F16,
                    TensorType::F32,
                    TensorType::F64,
                    TensorType::U8,
                    TensorType::I32,
                    TensorType::I64,
                ][tag as int],
            )
        } else {
            Err(NnErrno::InvalidArgument)
        }),
{
}

} // verus!
