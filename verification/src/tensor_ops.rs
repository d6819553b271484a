//! Trusted boundary to the `candle_core` tensor library.
//!
//! Tensor values are opaque to the verifier; the uninterpreted functions
//! below name the observables the contracts speak about (dimension list,
//! element type, device class, layout).  Each wrapper makes exactly one
//! tensor-library call and states, over those names, what the library's
//! source shows of its result: the shape, element type and device of a
//! successful result, the shape mismatches that are always rejected, and
//! the conditions under which a call on processor-resident tensors must
//! succeed.
use vstd::prelude::*;

use crate::shape::{out_dims, prods_fit, product_of};

verus! {

#[verifier::external_type_specification]
#[verifier::external_body]
pub struct ExTensor(candle_core::Tensor);

#[verifier::external_type_specification]
#[verifier::external_body]
pub struct ExError(candle_core::Error);

/// The dimension list of a tensor, as `Tensor::dims` reports it.
pub uninterp spec fn dims_of(t: candle_core::Tensor) -> Seq<usize>;

/// An abstract code for the element type `Tensor::dtype` reports; equal
/// codes mean equal element types.
pub uninterp spec fn dtype_of(t: candle_core::Tensor) -> int;

/// Whether the tensor lives on the general-purpose processor device.
pub uninterp spec fn on_cpu(t: candle_core::Tensor) -> bool;

/// Whether the tensor lives on the accelerated (Metal) device.
pub uninterp spec fn on_accel(t: candle_core::Tensor) -> bool;

/// Whether the tensor's memory layout is contiguous row-major, as
/// `Tensor::is_contiguous` reports it.
pub uninterp spec fn is_contig(t: candle_core::Tensor) -> bool;

/// Whether the processor matrix-multiplication kernel accepts this element
/// type (the classic float types F16, F32 and F64; the brain float and the
/// integer and packed types are rejected).
pub uninterp spec fn cpu_matmul_dtype(dtype: int) -> bool;

/// Whether the processor cast kernels convert this element type (every
/// type except the packed placeholder types).
pub uninterp spec fn cpu_cast_ok(dtype: int) -> bool;

/// The device kind a forward call dispatches on: the accelerated (Metal)
/// kind selects the accelerated backend, every other kind the default one.
#[derive(Clone, Copy, PartialEq, Eq, Structural, Debug)]
pub enum DeviceKind {
    Cpu,
    Cuda,
    Metal,
}

/// Relies on `Tensor::device`: classifies the tensor's device by variant.
#[verifier::external_body]
pub fn device_kind(t: &candle_core::Tensor) -> (k: DeviceKind)
    ensures
        (k == DeviceKind::Metal) == on_accel(*t),
        (k == DeviceKind::Cpu) == on_cpu(*t),
{
    match t.device() {
        candle_core::Device::Cpu => DeviceKind::Cpu,
        candle_core::Device::Cuda(_) => DeviceKind::Cuda,
        candle_core::Device::Metal(_) => DeviceKind::Metal,
    }
}

/// Relies on `Tensor::dims`: returns the dimension list.
#[verifier::external_body]
pub fn tensor_dims(t: &candle_core::Tensor) -> (r: Vec<usize>)
    ensures
        r@ == dims_of(*t),
{
    t.dims().to_vec()
}

/// Relies on `Tensor::clone`: the clone shares the same storage and is the
/// same tensor value.
#[verifier::external_body]
pub fn tensor_clone(t: &candle_core::Tensor) -> (r: candle_core::Tensor)
    ensures
        r == *t,
{
    t.clone()
}

/// Relies on `Tensor::to_device`: a successful move keeps shape, element
/// type and contiguity and lands on the target device; moving between two
/// processor-resident tensors is a clone and always succeeds.
#[verifier::external_body]
pub fn to_device_like(t: &candle_core::Tensor, like: &candle_core::Tensor) -> (r: Result<
    candle_core::Tensor,
    candle_core::Error,
>)
    requires
        prods_fit(dims_of(*t)),
    ensures
        r is Ok ==> {
            &&& dims_of(r.unwrap()) == dims_of(*t)
            &&& dtype_of(r.unwrap()) == dtype_of(*t)
            &&& on_cpu(r.unwrap()) == on_cpu(*like)
            &&& on_accel(r.unwrap()) == on_accel(*like)
            &&& (is_contig(*t) ==> is_contig(r.unwrap()))
        },
        on_cpu(*t) && on_cpu(*like) ==> r is Ok,
{
    t.to_device(like.device())
}

/// Relies on `Tensor::to_dtype`: a successful cast keeps shape and device
/// and takes the target element type; a cast to the same type is a clone,
/// and the processor cast kernels convert between all supported types.
#[verifier::external_body]
pub fn to_dtype_like(t: &candle_core::Tensor, like: &candle_core::Tensor) -> (r: Result<
    candle_core::Tensor,
    candle_core::Error,
>)
    requires
        prods_fit(dims_of(*t)),
    ensures
        r is Ok ==> {
            &&& dims_of(r.unwrap()) == dims_of(*t)
            &&& dtype_of(r.unwrap()) == dtype_of(*like)
            &&& on_cpu(r.unwrap()) == on_cpu(*t)
            &&& on_accel(r.unwrap()) == on_accel(*t)
            &&& (is_contig(*t) ==> is_contig(r.unwrap()))
        },
        dtype_of(*t) == dtype_of(*like) ==> r is Ok,
        on_cpu(*t) && cpu_cast_ok(dtype_of(*t)) && cpu_cast_ok(dtype_of(*like)) ==> r is Ok,
{
    t.to_dtype(like.dtype())
}

/// Relies on `Tensor::t`: succeeds exactly on tensors of rank at least two
/// and swaps the last two dimensions, keeping element type and device.
#[verifier::external_body]
pub fn transpose2(t: &candle_core::Tensor) -> (r: Result<candle_core::Tensor, candle_core::Error>)
    ensures
        r is Ok <==> dims_of(*t).len() >= 2,
        r is Ok ==> {
            &&& dims_of(r.unwrap()) == dims_of(*t).update(dims_of(*t).len() - 2, dims_of(*t).last()).update(
                dims_of(*t).len() - 1,
                dims_of(*t)[dims_of(*t).len() - 2],
            )
            &&& dtype_of(r.unwrap()) == dtype_of(*t)
            &&& on_cpu(r.unwrap()) == on_cpu(*t)
            &&& on_accel(r.unwrap()) == on_accel(*t)
        },
{
    t.t()
}

/// Relies on `Tensor::contiguous`: a success keeps shape, element type and
/// device and is contiguous; an already contiguous tensor is cloned, and on
/// the processor the copy always succeeds.
#[verifier::external_body]
pub fn contiguous(t: &candle_core::Tensor) -> (r: Result<candle_core::Tensor, candle_core::Error>)
    requires
        prods_fit(dims_of(*t)),
    ensures
        r is Ok ==> {
            &&& dims_of(r.unwrap()) == dims_of(*t)
            &&& dtype_of(r.unwrap()) == dtype_of(*t)
            &&& on_cpu(r.unwrap()) == on_cpu(*t)
            &&& on_accel(r.unwrap()) == on_accel(*t)
            &&& is_contig(r.unwrap())
        },
        is_contig(*t) ==> r is Ok,
        on_cpu(*t) ==> r is Ok,
{
    t.contiguous()
}

/// Relies on `Tensor::matmul`. Its source first rejects rank mismatches,
/// then returns a zero tensor for empty products, then rejects an inner
/// dimension mismatch; on the processor the kernel accepts any strides for
/// rank-2 operands of a supported float type on the same device.
#[verifier::external_body]
pub fn matmul(a: &candle_core::Tensor, b: &candle_core::Tensor) -> (r: Result<
    candle_core::Tensor,
    candle_core::Error,
>)
    requires
        dims_of(*a).len() == 2 && dims_of(*b).len() == 2 ==> dims_of(*a)[0] * dims_of(*b)[1]
            <= usize::MAX,
        dims_of(*a).len() >= 2 && dims_of(*a).len() > 2 ==> dims_of(*b).len() != dims_of(*a).len(),
    ensures
        dims_of(*a).len() < 2 || dims_of(*b).len() != dims_of(*a).len() ==> r is Err,
        dims_of(*a).len() == 2 && dims_of(*b).len() == 2 ==> {
            &&& (r is Ok ==> {
                &&& dims_of(r.unwrap()) == seq![dims_of(*a)[0], dims_of(*b)[1]]
                &&& dtype_of(r.unwrap()) == dtype_of(*a)
                &&& on_cpu(r.unwrap()) == on_cpu(*a)
                &&& on_accel(r.unwrap()) == on_accel(*a)
                &&& is_contig(r.unwrap())
            })
            &&& (dims_of(*a)[1] != dims_of(*b)[0] && dims_of(*a)[0] > 0 && dims_of(*a)[1] > 0
                && dims_of(*b)[1] > 0 ==> r is Err)
            &&& (on_cpu(*a) && on_cpu(*b) && dtype_of(*a) == dtype_of(*b) && cpu_matmul_dtype(
                dtype_of(*a),
            ) && dims_of(*a)[1] == dims_of(*b)[0] ==> r is Ok)
        },
{
    a.matmul(b)
}

/// Relies on `Tensor::reshape` to two dimensions: succeeds exactly when the
/// element counts agree (for a non-contiguous source a copy is made, which
/// on the processor always succeeds); a success has the requested shape, is
/// contiguous, and keeps element type and device.
#[verifier::external_body]
pub fn reshape2(t: &candle_core::Tensor, d0: usize, d1: usize) -> (r: Result<
    candle_core::Tensor,
    candle_core::Error,
>)
    requires
        prods_fit(dims_of(*t)),
        d0 * d1 <= usize::MAX,
    ensures
        r is Ok ==> {
            &&& dims_of(r.unwrap()) == seq![d0, d1]
            &&& dtype_of(r.unwrap()) == dtype_of(*t)
            &&& on_cpu(r.unwrap()) == on_cpu(*t)
            &&& on_accel(r.unwrap()) == on_accel(*t)
            &&& is_contig(r.unwrap())
        },
        d0 * d1 != product_of(dims_of(*t)) ==> r is Err,
        d0 * d1 == product_of(dims_of(*t)) && (is_contig(*t) || on_cpu(*t)) ==> r is Ok,
{
    t.reshape((d0, d1))
}

/// Relies on `Tensor::reshape` to three dimensions; same contract as the
/// two-dimensional form.
#[verifier::external_body]
pub fn reshape3(t: &candle_core::Tensor, d0: usize, d1: usize, d2: usize) -> (r: Result<
    candle_core::Tensor,
    candle_core::Error,
>)
    requires
        prods_fit(dims_of(*t)),
        d0 * d1 <= usize::MAX,
        d0 * d1 * d2 <= usize::MAX,
    ensures
        r is Ok ==> {
            &&& dims_of(r.unwrap()) == seq![d0, d1, d2]
            &&& dtype_of(r.unwrap()) == dtype_of(*t)
            &&& on_cpu(r.unwrap()) == on_cpu(*t)
            &&& on_accel(r.unwrap()) == on_accel(*t)
            &&& is_contig(r.unwrap())
        },
        d0 * d1 * d2 != product_of(dims_of(*t)) ==> r is Err,
        d0 * d1 * d2 == product_of(dims_of(*t)) && (is_contig(*t) || on_cpu(*t)) ==> r is Ok,
{
    t.reshape((d0, d1, d2))
}

/// Relies on `candle_nn::Linear::forward` (`x @ w.t() + bias`): a success
/// has the input shape with its last dimension replaced by the number of
/// output rows of the weight; inputs of rank outside two to four are
/// rejected, as is a non-degenerate feature mismatch; on the processor a
/// well-shaped call of a supported float type succeeds (for rank four the
/// flattening path asks for a contiguous input, and for rank three and
/// four the leading dimensions must have a positive product: the restore
/// reshape computes its hole by dividing by that product and rejects
/// zero).
#[verifier::external_body]
pub fn linear_forward(
    x: &candle_core::Tensor,
    w: &candle_core::Tensor,
    b: Option<&candle_core::Tensor>,
) -> (r: Result<candle_core::Tensor, candle_core::Error>)
    requires
        dims_of(*w).len() == 2,
        b is Some ==> dims_of(*b.unwrap()) == seq![dims_of(*w)[0]],
        dims_of(*x).len() >= 1 ==> prods_fit(dims_of(*x)) && prods_fit(
            out_dims(dims_of(*x), dims_of(*w)[0]),
        ),
    ensures
        r is Ok ==> {
            &&& dims_of(*x).len() >= 2
            &&& dims_of(r.unwrap()) == out_dims(dims_of(*x), dims_of(*w)[0])
            &&& dtype_of(r.unwrap()) == dtype_of(*x)
            &&& on_cpu(r.unwrap()) == on_cpu(*x)
            &&& on_accel(r.unwrap()) == on_accel(*x)
            &&& is_contig(r.unwrap())
        },
        dims_of(*x).len() < 2 || dims_of(*x).len() > 4 ==> r is Err,
        dims_of(*x).len() >= 2 && dims_of(*x).len() <= 4 && product_of(dims_of(*x)) > 0 && dims_of(
            *w,
        )[0] > 0 && dims_of(*x).last() != dims_of(*w)[1] ==> r is Err,
        ({
            &&& on_cpu(*x)
            &&& on_cpu(*w)
            &&& dtype_of(*w) == dtype_of(*x)
            &&& cpu_matmul_dtype(dtype_of(*x))
            &&& (b is Some ==> on_cpu(*b.unwrap()) && dtype_of(*b.unwrap()) == dtype_of(*x))
            &&& dims_of(*x).len() >= 2
            &&& dims_of(*x).len() <= 4
            &&& (dims_of(*x).len() == 4 ==> is_contig(*x))
            &&& (dims_of(*x).len() >= 3 ==> product_of(dims_of(*x).drop_last()) > 0)
            &&& dims_of(*x).last() == dims_of(*w)[1]
        }) ==> r is Ok,
{
    let layer = candle_nn::Linear::new(w.clone(), b.cloned());
    candle_nn::Module::forward(&layer, x)
}

/// Relies on `Tensor::broadcast_mul` with a rank-zero right operand: the
/// scalar broadcasts over any shape, so a success keeps the left operand's
/// shape, element type and device (a zero-element left operand
/// short-circuits to a clone of itself); on the processor, equal supported
/// float types succeed.
#[verifier::external_body]
pub fn broadcast_mul_scale(t: &candle_core::Tensor, s: &candle_core::Tensor) -> (r: Result<
    candle_core::Tensor,
    candle_core::Error,
>)
    requires
        prods_fit(dims_of(*t)),
        dims_of(*s).len() == 0,
    ensures
        r is Ok ==> {
            &&& dims_of(r.unwrap()) == dims_of(*t)
            &&& dtype_of(r.unwrap()) == dtype_of(*t)
            &&& on_cpu(r.unwrap()) == on_cpu(*t)
            &&& on_accel(r.unwrap()) == on_accel(*t)
        },
        on_cpu(*t) && on_cpu(*s) && dtype_of(*s) == dtype_of(*t) && cpu_matmul_dtype(dtype_of(*t))
            ==> r is Ok,
{
    t.broadcast_mul(s)
}

/// Relies on `Tensor::add`: operand shapes must agree exactly; a success
/// keeps the left operand's shape, element type and device; on the
/// processor, equal shapes, devices and supported float types succeed.
#[verifier::external_body]
pub fn tensor_add(a: &candle_core::Tensor, b: &candle_core::Tensor) -> (r: Result<
    candle_core::Tensor,
    candle_core::Error,
>)
    requires
        prods_fit(dims_of(*a)),
    ensures
        r is Ok ==> {
            &&& dims_of(r.unwrap()) == dims_of(*a)
            &&& dtype_of(r.unwrap()) == dtype_of(*a)
            &&& on_cpu(r.unwrap()) == on_cpu(*a)
            &&& on_accel(r.unwrap()) == on_accel(*a)
        },
        dims_of(*a) != dims_of(*b) ==> r is Err,
        on_cpu(*a) && on_cpu(*b) && dims_of(*a) == dims_of(*b) && dtype_of(*a) == dtype_of(*b)
            && cpu_matmul_dtype(dtype_of(*a)) ==> r is Ok,
{
    a.add(b)
}

/// Relies on `Error::Msg`: wraps a failed multiplication with the operation
/// name and both operand shapes, as diagnostic context.
#[verifier::external_body]
pub fn mm_error_with_context(
    op: &str,
    lhs_dims: &Vec<usize>,
    rhs_dims: &Vec<usize>,
    e: candle_core::Error,
) -> (r: candle_core::Error)
{
    candle_core::Error::Msg(format!(
        "Metal LoRA {op} failed: lhs={lhs_dims:?} rhs={rhs_dims:?} error={e}"
    ))
}

/// Relies on `Error::Msg`: reports a shape the delta path cannot handle
/// (an element count that overflows the machine word, or operand ranks
/// outside the policy), instead of wrapping or panicking.
#[verifier::external_body]
pub fn msg_error_dims(context: &str, dims: &Vec<usize>) -> (r: candle_core::Error)
{
    candle_core::Error::Msg(format!("{context}: {dims:?}"))
}

} // verus!
