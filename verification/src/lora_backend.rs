//! Backend capability interface, backend selector, the shared batched-shape
//! policy, and the runtime container for a linear layer with a swappable
//! low-rank adapter.
use vstd::prelude::*;

use crate::shape::{
    checked_mul_usize, checked_product, lemma_product2, lemma_product_pos, lemma_product_take_all,
    lemma_prods_fit_drop_last, lemma_prods_fit_push, out_dims, prods_fit, product_of,
};
use crate::tensor_ops::{
    broadcast_mul_scale, contiguous, cpu_cast_ok, cpu_matmul_dtype, device_kind, dims_of, dtype_of,
    is_contig, linear_forward, matmul, mm_error_with_context, msg_error_dims, on_accel, on_cpu,
    reshape2, reshape3, tensor_add, tensor_clone, tensor_dims, to_device_like, to_dtype_like,
    transpose2, DeviceKind,
};
use crate::lora_cpu::CpuLoraBackend;
use crate::lora_metal::MetalLoraBackend;

verus! {

/// The tensors an `Option<&Tensor>` argument refers to, as owned values.
pub open spec fn deref_opt(o: Option<&candle_core::Tensor>) -> Option<candle_core::Tensor> {
    match o {
        Some(t) => Some(*t),
        None => None,
    }
}

/// Well-formedness of the base parameters: a two-dimensional weight
/// `[out_features, in_features]` and, if present, a bias `[out_features]`.
pub open spec fn base_wf(w: candle_core::Tensor, b: Option<candle_core::Tensor>) -> bool {
    &&& dims_of(w).len() == 2
    &&& (b is Some ==> dims_of(b.unwrap()) == seq![dims_of(w)[0]])
}

/// The two adapter matrices and the scale are attached together or not at
/// all, and the scale is a scalar (rank-zero) tensor.
pub open spec fn adapter_consistent(
    a: Option<candle_core::Tensor>,
    b: Option<candle_core::Tensor>,
    s: Option<candle_core::Tensor>,
) -> bool {
    &&& (a is Some <==> b is Some)
    &&& (s is Some <==> a is Some)
    &&& (s is Some ==> dims_of(s.unwrap()).len() == 0)
}

/// Inputs on which a forward call on processor-resident tensors is owed a
/// successful result: everything on the processor, a matmul-supported
/// element type, conforming shapes, and intermediate element counts that
/// fit in the machine word.
pub open spec fn cpu_forward_ok(
    x: candle_core::Tensor,
    w: candle_core::Tensor,
    b: Option<candle_core::Tensor>,
    a: Option<candle_core::Tensor>,
    bb: Option<candle_core::Tensor>,
    s: Option<candle_core::Tensor>,
) -> bool {
    let xd = dims_of(x);
    let wd = dims_of(w);
    &&& on_cpu(x)
    &&& on_cpu(w)
    &&& dtype_of(w) == dtype_of(x)
    &&& cpu_matmul_dtype(dtype_of(x))
    &&& (b is Some ==> on_cpu(b.unwrap()) && dtype_of(b.unwrap()) == dtype_of(x))
    &&& xd.len() >= 2
    &&& (a is Some ==> xd.len() <= 3)
    &&& (a is None ==> xd.len() <= 4 && (xd.len() == 4 ==> is_contig(x)))
    &&& xd.last() == wd[1]
    &&& (xd.len() >= 3 ==> product_of(xd.drop_last()) > 0)
    &&& prods_fit(xd)
    &&& prods_fit(out_dims(xd, wd[0]))
    &&& (a is Some ==> {
        let ad = dims_of(a.unwrap());
        let bd = dims_of(bb.unwrap());
        &&& on_cpu(a.unwrap())
        &&& on_cpu(bb.unwrap())
        &&& on_cpu(s.unwrap())
        &&& cpu_cast_ok(dtype_of(a.unwrap()))
        &&& cpu_cast_ok(dtype_of(bb.unwrap()))
        &&& cpu_cast_ok(dtype_of(s.unwrap()))
        &&& cpu_cast_ok(dtype_of(x))
        &&& prods_fit(ad)
        &&& prods_fit(bd)
        &&& ad.len() == 2
        &&& bd.len() == 2
        &&& ad[1] == wd[1]
        &&& bd[1] == ad[0]
        &&& bd[0] == wd[0]
        &&& product_of(xd.drop_last()) * ad[0] <= usize::MAX
    })
}

/// The contract every backend's forward call meets.
///
/// A successful result has the input's shape with its last dimension
/// replaced by the weight's output features, and the input's element type
/// and device.  Inputs of rank outside two to four are rejected, as is a
/// non-degenerate feature mismatch with the base weight; an attached
/// adapter whose shared rank dimensions disagree is rejected on any rank-2
/// or rank-3 input, and with an adapter attached only rank-2 and rank-3
/// inputs can succeed at all.  On the inputs of `cpu_forward_ok` a result
/// is owed.
pub open spec fn forward_contract(
    x: candle_core::Tensor,
    w: candle_core::Tensor,
    b: Option<candle_core::Tensor>,
    a: Option<candle_core::Tensor>,
    bb: Option<candle_core::Tensor>,
    s: Option<candle_core::Tensor>,
    r: Result<candle_core::Tensor, candle_core::Error>,
) -> bool {
    let xd = dims_of(x);
    let wd = dims_of(w);
    &&& (r is Ok ==> {
        &&& xd.len() >= 2
        &&& dims_of(r.unwrap()) == out_dims(xd, wd[0])
        &&& dtype_of(r.unwrap()) == dtype_of(x)
        &&& on_cpu(r.unwrap()) == on_cpu(x)
        &&& on_accel(r.unwrap()) == on_accel(x)
    })
    &&& (xd.len() < 2 || xd.len() > 4 ==> r is Err)
    &&& (xd.len() >= 2 && xd.len() <= 4 && product_of(xd) > 0 && wd[0] > 0 && xd.last() != wd[1]
        ==> r is Err)
    &&& ((a is Some && xd.len() >= 2 && xd.len() <= 3 && product_of(xd) > 0 && wd[0] > 0
        && dims_of(a.unwrap()).len() == 2 && dims_of(bb.unwrap()).len() == 2 && dims_of(
        a.unwrap(),
    )[0] != dims_of(bb.unwrap())[1] && dims_of(a.unwrap())[0] > 0 && dims_of(bb.unwrap())[0] > 0)
        ==> r is Err)
    &&& (a is Some && (xd.len() < 2 || xd.len() > 3) ==> r is Err)
    &&& (cpu_forward_ok(x, w, b, a, bb, s) ==> r is Ok)
}

/// The shared batched-shape policy, used by both backends.
///
/// Computes the base affine transform, and, when an adapter is attached,
/// the low-rank delta: directly for rank-2 inputs, through a flatten /
/// restore step for rank-3 inputs, and as a best-effort direct multiply
/// for any other rank.  With `accelerated` set, every operand entering a
/// matrix multiplication is first forced into contiguous layout, and a
/// failed multiplication is re-wrapped with the operation name and both
/// operand shapes.
#[verifier::rlimit(60)]
pub(crate) fn adapted_forward(
    x: &candle_core::Tensor,
    base_weight: &candle_core::Tensor,
    base_bias: Option<&candle_core::Tensor>,
    lora_a: Option<&candle_core::Tensor>,
    lora_b: Option<&candle_core::Tensor>,
    scale: Option<&candle_core::Tensor>,
    accelerated: bool,
) -> (r: Result<candle_core::Tensor, candle_core::Error>)
    requires
        base_wf(*base_weight, deref_opt(base_bias)),
        adapter_consistent(deref_opt(lora_a), deref_opt(lora_b), deref_opt(scale)),
    ensures
        forward_contract(
            *x,
            *base_weight,
            deref_opt(base_bias),
            deref_opt(lora_a),
            deref_opt(lora_b),
            deref_opt(scale),
            r,
        ),
{
    let xd = tensor_dims(x);
    let wd = tensor_dims(base_weight);
    let out_features: usize = wd[0];
    // Reject element counts that would overflow the shape arithmetic.
    match checked_product(&xd) {
        Some(_) => {}
        None => {
            return Err(msg_error_dims("shape element count overflows usize", &xd));
        }
    }
    if xd.len() >= 1 {
        let lead: usize = match crate::shape::checked_product_upto(&xd, xd.len() - 1) {
            Some(p) => p,
            None => {
                return Err(msg_error_dims("shape element count overflows usize", &xd));
            }
        };
        proof {
            assert(xd@.take(xd@.len() - 1) =~= xd@.drop_last());
            lemma_prods_fit_drop_last(xd@);
        }
        match checked_mul_usize(lead, out_features) {
            Some(_) => {}
            None => {
                proof {
                    lemma_prods_fit_push(xd@.drop_last(), wd@[0]);
                    lemma_product_take_all(xd@.drop_last());
                }
                return Err(msg_error_dims("shape element count overflows usize", &xd));
            }
        }
        proof {
            lemma_prods_fit_push(xd@.drop_last(), wd@[0]);
            lemma_product_take_all(xd@.drop_last());
        }
    }
    let base = match linear_forward(x, base_weight, base_bias) {
        Ok(t) => t,
        Err(e) => {
            return Err(e);
        }
    };
    match (lora_a, lora_b, scale) {
        (Some(a0), Some(b0), Some(s0)) => {
            let ad = tensor_dims(a0);
            let bd = tensor_dims(b0);
            match checked_product(&ad) {
                Some(_) => {}
                None => {
                    return Err(msg_error_dims("shape element count overflows usize", &ad));
                }
            }
            match checked_product(&bd) {
                Some(_) => {}
                None => {
                    return Err(msg_error_dims("shape element count overflows usize", &bd));
                }
            }
            // Coerce the adapter pair to the input's device and element type.
            let a_dev = match to_device_like(a0, x) {
                Ok(t) => t,
                Err(e) => {
                    return Err(e);
                }
            };
            let a_c0 = match to_dtype_like(&a_dev, x) {
                Ok(t) => t,
                Err(e) => {
                    return Err(e);
                }
            };
            let a_c = if accelerated {
                match contiguous(&a_c0) {
                    Ok(t) => t,
                    Err(e) => {
                        return Err(e);
                    }
                }
            } else {
                a_c0
            };
            let b_dev = match to_device_like(b0, x) {
                Ok(t) => t,
                Err(e) => {
                    return Err(e);
                }
            };
            let b_c0 = match to_dtype_like(&b_dev, x) {
                Ok(t) => t,
                Err(e) => {
                    return Err(e);
                }
            };
            let b_c = if accelerated {
                match contiguous(&b_c0) {
                    Ok(t) => t,
                    Err(e) => {
                        return Err(e);
                    }
                }
            } else {
                b_c0
            };
            let a_t0 = match transpose2(&a_c) {
                Ok(t) => t,
                Err(e) => {
                    return Err(e);
                }
            };
            let at_dims = tensor_dims(&a_t0);
            let a_t = if accelerated {
                match checked_product(&at_dims) {
                    Some(_) => {}
                    None => {
                        proof {
                            if cpu_forward_ok(
                                *x,
                                *base_weight,
                                deref_opt(base_bias),
                                deref_opt(lora_a),
                                deref_opt(lora_b),
                                deref_opt(scale),
                            ) {
                                assert(at_dims@ =~= seq![ad@[1], ad@[0]]);
                                crate::shape::lemma_prods_fit2(ad@[1], ad@[0]);
                                assert(ad@ =~= seq![ad@[0], ad@[1]]);
                                lemma_product2(ad@[0], ad@[1]);
                                lemma_product_take_all(ad@);
                                assert(product_of(ad@.take(2)) <= usize::MAX);
                            }
                        }
                        return Err(msg_error_dims("shape element count overflows usize", &at_dims));
                    }
                }
                match contiguous(&a_t0) {
                    Ok(t) => t,
                    Err(e) => {
                        return Err(e);
                    }
                }
            } else {
                a_t0
            };
            let b_t0 = match transpose2(&b_c) {
                Ok(t) => t,
                Err(e) => {
                    return Err(e);
                }
            };
            let bt_dims = tensor_dims(&b_t0);
            let b_t = if accelerated {
                match checked_product(&bt_dims) {
                    Some(_) => {}
                    None => {
                        proof {
                            if cpu_forward_ok(
                                *x,
                                *base_weight,
                                deref_opt(base_bias),
                                deref_opt(lora_a),
                                deref_opt(lora_b),
                                deref_opt(scale),
                            ) {
                                assert(bt_dims@ =~= seq![bd@[1], bd@[0]]);
                                crate::shape::lemma_prods_fit2(bd@[1], bd@[0]);
                                assert(bd@ =~= seq![bd@[0], bd@[1]]);
                                lemma_product2(bd@[0], bd@[1]);
                                lemma_product_take_all(bd@);
                                assert(product_of(bd@.take(2)) <= usize::MAX);
                            }
                        }
                        return Err(msg_error_dims("shape element count overflows usize", &bt_dims));
                    }
                }
                match contiguous(&b_t0) {
                    Ok(t) => t,
                    Err(e) => {
                        return Err(e);
                    }
                }
            } else {
                b_t0
            };
            proof {
                if cpu_forward_ok(
                    *x,
                    *base_weight,
                    deref_opt(base_bias),
                    deref_opt(lora_a),
                    deref_opt(lora_b),
                    deref_opt(scale),
                ) {
                    crate::shape::lemma_prods_fit2(ad@[1], ad@[0]);
                    crate::shape::lemma_prods_fit2(bd@[1], bd@[0]);
                    crate::shape::lemma_prods_fit2(ad@[0], ad@[1]);
                    crate::shape::lemma_prods_fit2(bd@[0], bd@[1]);
                    assert(ad@ =~= seq![ad@[0], ad@[1]]);
                    assert(bd@ =~= seq![bd@[0], bd@[1]]);
                    lemma_product2(ad@[0], ad@[1]);
                    lemma_product2(bd@[0], bd@[1]);
                    assert(product_of(ad@.take(2)) <= usize::MAX);
                    assert(product_of(ad@.take(ad@.len() as int)) == product_of(ad@)) by {
                        lemma_product_take_all(ad@);
                    }
                    assert(product_of(bd@.take(bd@.len() as int)) == product_of(bd@)) by {
                        lemma_product_take_all(bd@);
                    }
                }
            }
            let delta = if xd.len() == 2 {
                let xm = if accelerated {
                    match contiguous(x) {
                        Ok(t) => t,
                        Err(e) => {
                            return Err(e);
                        }
                    }
                } else {
                    tensor_clone(x)
                };
                if ad.len() == 2 {
                    match checked_mul_usize(xd[0], ad[0]) {
                        Some(_) => {}
                        None => {
                            proof {
                                assert(xd@.drop_last() =~= seq![xd@[0]]);
                                assert(seq![xd@[0]].drop_last() =~= Seq::<usize>::empty());
                                assert(product_of(Seq::<usize>::empty()) == 1);
                                assert(product_of(xd@.drop_last()) == 1 * xd@[0]);
                            }
                            return Err(msg_error_dims("shape element count overflows usize", &xd));
                        }
                    }
                }
                let xa = match matmul(&xm, &a_t) {
                    Ok(t) => t,
                    Err(e) => {
                        return Err(
                            if accelerated {
                                mm_error_with_context("x @ A.T", &xd, &at_dims, e)
                            } else {
                                e
                            },
                        );
                    }
                };
                let xa_dims = tensor_dims(&xa);
                if bd.len() == 2 {
                    match checked_mul_usize(xd[0], bd[0]) {
                        Some(_) => {}
                        None => {
                            proof {
                                assert(xd@.drop_last() =~= seq![xd@[0]]);
                                assert(seq![xd@[0]].drop_last() =~= Seq::<usize>::empty());
                                assert(product_of(Seq::<usize>::empty()) == 1);
                                assert(product_of(xd@.drop_last()) == 1 * xd@[0]);
                                lemma_prods_fit_push(xd@.drop_last(), wd@[0]);
                                lemma_product_take_all(xd@.drop_last());
                            }
                            return Err(msg_error_dims("shape element count overflows usize", &xd));
                        }
                    }
                }
                proof {
                    if product_of(xd@) > 0 {
                        lemma_product_pos(xd@);
                    }
                }
                match matmul(&xa, &b_t) {
                    Ok(t) => t,
                    Err(e) => {
                        return Err(
                            if accelerated {
                                mm_error_with_context("xa @ B.T", &xa_dims, &bt_dims, e)
                            } else {
                                e
                            },
                        );
                    }
                }
            } else if xd.len() == 3 {
                proof {
                    crate::shape::lemma_product_take_step(xd@, 1);
                    crate::shape::lemma_product_take_step(xd@, 2);
                    crate::shape::lemma_product_take_step(xd@, 3);
                    assert(xd@.take(0) =~= Seq::<usize>::empty());
                    assert(xd@.take(3) =~= xd@);
                }
                let bl: usize = xd[0] * xd[1];
                let xm = if accelerated {
                    match contiguous(x) {
                        Ok(t) => t,
                        Err(e) => {
                            return Err(e);
                        }
                    }
                } else {
                    tensor_clone(x)
                };
                let x2d = match reshape2(&xm, bl, xd[2]) {
                    Ok(t) => t,
                    Err(e) => {
                        return Err(e);
                    }
                };
                let x2d_dims = tensor_dims(&x2d);
                if ad.len() == 2 {
                    match checked_mul_usize(bl, ad[0]) {
                        Some(_) => {}
                        None => {
                            proof {
                                assert(xd@.drop_last() =~= seq![xd@[0], xd@[1]]);
                                lemma_product2(xd@[0], xd@[1]);
                            }
                            return Err(msg_error_dims("shape element count overflows usize", &xd));
                        }
                    }
                }
                let xa = match matmul(&x2d, &a_t) {
                    Ok(t) => t,
                    Err(e) => {
                        return Err(
                            if accelerated {
                                mm_error_with_context("x2d @ A.T", &x2d_dims, &at_dims, e)
                            } else {
                                e
                            },
                        );
                    }
                };
                let xa_dims = tensor_dims(&xa);
                if bd.len() == 2 {
                    match checked_mul_usize(bl, bd[0]) {
                        Some(_) => {}
                        None => {
                            proof {
                                assert(xd@.drop_last() =~= seq![xd@[0], xd@[1]]);
                                lemma_product2(xd@[0], xd@[1]);
                                lemma_prods_fit_push(xd@.drop_last(), wd@[0]);
                                lemma_product_take_all(xd@.drop_last());
                            }
                            return Err(msg_error_dims("shape element count overflows usize", &xd));
                        }
                    }
                }
                proof {
                    if product_of(xd@) > 0 {
                        lemma_product_pos(xd@);
                        assert(xd@[0] * xd@[1] > 0) by (nonlinear_arith)
                            requires
                                xd@[0] > 0,
                                xd@[1] > 0,
                        ;
                    }
                }
                let d2d = match matmul(&xa, &b_t) {
                    Ok(t) => t,
                    Err(e) => {
                        return Err(
                            if accelerated {
                                mm_error_with_context("xa @ B.T", &xa_dims, &bt_dims, e)
                            } else {
                                e
                            },
                        );
                    }
                };
                proof {
                    crate::shape::lemma_prods_fit2(bl, bd@[0]);
                    lemma_product2(bl, bd@[0]);
                }
                match reshape3(&d2d, xd[0], xd[1], bd[0]) {
                    Ok(t) => t,
                    Err(e) => {
                        return Err(e);
                    }
                }
            } else {
                // Defined best-effort fallback: the rank-2 formula applied
                // directly, with no reshaping.
                let xm = if accelerated {
                    match contiguous(x) {
                        Ok(t) => t,
                        Err(e) => {
                            return Err(e);
                        }
                    }
                } else {
                    tensor_clone(x)
                };
                if ad.len() == xd.len() {
                    return Err(msg_error_dims("unsupported operand ranks for low-rank delta", &ad));
                }
                let xa = match matmul(&xm, &a_t) {
                    Ok(t) => t,
                    Err(e) => {
                        return Err(
                            if accelerated {
                                mm_error_with_context("x @ A.T", &xd, &at_dims, e)
                            } else {
                                e
                            },
                        );
                    }
                };
                let xa_dims = tensor_dims(&xa);
                match matmul(&xa, &b_t) {
                    Ok(t) => t,
                    Err(e) => {
                        return Err(
                            if accelerated {
                                mm_error_with_context("xa @ B.T", &xa_dims, &bt_dims, e)
                            } else {
                                e
                            },
                        );
                    }
                }
            };
            // Scale the delta and add it to the base output.
            proof {
                crate::shape::lemma_prods_fit_empty(dims_of(*s0));
            }
            let s_dev = match to_device_like(s0, x) {
                Ok(t) => t,
                Err(e) => {
                    return Err(e);
                }
            };
            let s_c = match to_dtype_like(&s_dev, x) {
                Ok(t) => t,
                Err(e) => {
                    return Err(e);
                }
            };
            proof {
                if dims_of(delta).len() == 2 {
                    crate::shape::lemma_prods_fit2(dims_of(delta)[0], dims_of(delta)[1]);
                }
                if xd@.len() == 3 && dims_of(delta).len() == 3 {
                    crate::shape::lemma_prods_fit3(xd@[0], xd@[1], dims_of(delta)[2]);
                }
            }
            let scaled = match broadcast_mul_scale(&delta, &s_c) {
                Ok(t) => t,
                Err(e) => {
                    return Err(e);
                }
            };
            proof {
                if cpu_forward_ok(
                    *x,
                    *base_weight,
                    deref_opt(base_bias),
                    deref_opt(lora_a),
                    deref_opt(lora_b),
                    deref_opt(scale),
                ) {
                    if xd@.len() == 2 {
                        assert(xd@.drop_last() =~= seq![xd@[0]]);
                        assert(out_dims(xd@, wd@[0]) =~= seq![xd@[0], wd@[0]]);
                        assert(dims_of(scaled) =~= out_dims(xd@, wd@[0]));
                    } else if xd@.len() == 3 {
                        assert(xd@.drop_last() =~= seq![xd@[0], xd@[1]]);
                        assert(out_dims(xd@, wd@[0]) =~= seq![xd@[0], xd@[1], wd@[0]]);
                        assert(dims_of(scaled) =~= out_dims(xd@, wd@[0]));
                    }
                }
            }
            let out_t = match tensor_add(&scaled, &base) {
                Ok(t) => t,
                Err(e) => {
                    return Err(e);
                }
            };
            Ok(out_t)
        }
        _ => Ok(base),
    }
}

/// The capability every execution backend implements: compute the adapted
/// affine forward `x @ w.t() + bias + scale * ((x @ a.t()) @ b.t())`,
/// with the low-rank delta omitted when no adapter is attached.
pub trait LoraBackend: Sized {
    fn forward(
        &self,
        x: &candle_core::Tensor,
        base_weight: &candle_core::Tensor,
        base_bias: Option<&candle_core::Tensor>,
        lora_a: Option<&candle_core::Tensor>,
        lora_b: Option<&candle_core::Tensor>,
        scale: Option<&candle_core::Tensor>,
    ) -> (r: Result<candle_core::Tensor, candle_core::Error>)
        requires
            base_wf(*base_weight, deref_opt(base_bias)),
            adapter_consistent(deref_opt(lora_a), deref_opt(lora_b), deref_opt(scale)),
        ensures
            forward_contract(
                *x,
                *base_weight,
                deref_opt(base_bias),
                deref_opt(lora_a),
                deref_opt(lora_b),
                deref_opt(scale),
                r,
            ),
    ;
}

/// The closed set of backends the selector can hand out.
pub enum BackendHandle {
    Cpu(CpuLoraBackend),
    Metal(MetalLoraBackend),
}

/// Maps a device kind to its backend: the accelerated (Metal) kind yields
/// the accelerated backend, every other kind the default one.
pub fn create_backend(device: DeviceKind) -> (r: BackendHandle)
    ensures
        (r is Metal) <==> device == DeviceKind::Metal,
        (r is Cpu) <==> device != DeviceKind::Metal,
{
    match device {
        DeviceKind::Metal => BackendHandle::Metal(MetalLoraBackend::new()),
        _ => BackendHandle::Cpu(CpuLoraBackend::new()),
    }
}

impl BackendHandle {
    /// Delegates to the held backend; both meet the same contract.
    pub fn forward(
        &self,
        x: &candle_core::Tensor,
        base_weight: &candle_core::Tensor,
        base_bias: Option<&candle_core::Tensor>,
        lora_a: Option<&candle_core::Tensor>,
        lora_b: Option<&candle_core::Tensor>,
        scale: Option<&candle_core::Tensor>,
    ) -> (r: Result<candle_core::Tensor, candle_core::Error>)
        requires
            base_wf(*base_weight, deref_opt(base_bias)),
            adapter_consistent(deref_opt(lora_a), deref_opt(lora_b), deref_opt(scale)),
        ensures
            forward_contract(
                *x,
                *base_weight,
                deref_opt(base_bias),
                deref_opt(lora_a),
                deref_opt(lora_b),
                deref_opt(scale),
                r,
            ),
    {
        match self {
            BackendHandle::Cpu(b) => b.forward(x, base_weight, base_bias, lora_a, lora_b, scale),
            BackendHandle::Metal(b) => b.forward(x, base_weight, base_bias, lora_a, lora_b, scale),
        }
    }
}

/// A linear layer with a runtime-swappable low-rank adapter: the frozen
/// base weight and bias, an optional adapter pair with its scale, and an
/// identifying name (a diagnostic label with no behavioural effect).
pub struct LoraLinearRt {
    weight: candle_core::Tensor,
    bias: Option<candle_core::Tensor>,
    lora_a: Option<candle_core::Tensor>,
    lora_b: Option<candle_core::Tensor>,
    scale: Option<candle_core::Tensor>,
    name: String,
}

impl LoraLinearRt {
    pub closed spec fn spec_weight(self) -> candle_core::Tensor {
        self.weight
    }

    pub closed spec fn spec_bias(self) -> Option<candle_core::Tensor> {
        self.bias
    }

    pub closed spec fn spec_lora_a(self) -> Option<candle_core::Tensor> {
        self.lora_a
    }

    pub closed spec fn spec_lora_b(self) -> Option<candle_core::Tensor> {
        self.lora_b
    }

    pub closed spec fn spec_scale(self) -> Option<candle_core::Tensor> {
        self.scale
    }

    pub closed spec fn spec_name(self) -> Seq<char> {
        self.name@
    }

    /// Well-formed base parameters, and an adapter pair attached together
    /// with its scalar scale or not at all.
    pub open spec fn wf(self) -> bool {
        &&& base_wf(self.spec_weight(), self.spec_bias())
        &&& adapter_consistent(self.spec_lora_a(), self.spec_lora_b(), self.spec_scale())
    }

    pub closed spec fn spec_new(
        weight: candle_core::Tensor,
        bias: Option<candle_core::Tensor>,
        name: String,
    ) -> LoraLinearRt {
        LoraLinearRt { weight, bias, lora_a: None, lora_b: None, scale: None, name }
    }

    pub closed spec fn spec_with_adapter(
        self,
        lora_a: candle_core::Tensor,
        lora_b: candle_core::Tensor,
        scale: candle_core::Tensor,
    ) -> LoraLinearRt {
        LoraLinearRt { lora_a: Some(lora_a), lora_b: Some(lora_b), scale: Some(scale), ..self }
    }

    pub closed spec fn spec_cleared(self) -> LoraLinearRt {
        LoraLinearRt { lora_a: None, lora_b: None, scale: None, ..self }
    }

    /// Construct a unit with no adapter attached; the scale is absent,
    /// which is the inert default.
    pub fn new(weight: candle_core::Tensor, bias: Option<candle_core::Tensor>, name: String) -> (r:
        LoraLinearRt)
        requires
            base_wf(weight, bias),
        ensures
            r == LoraLinearRt::spec_new(weight, bias, name),
            r.spec_weight() == weight,
            r.spec_bias() == bias,
            r.spec_lora_a() is None,
            r.spec_lora_b() is None,
            r.spec_scale() is None,
            r.spec_name() == name@,
            r.wf(),
    {
        LoraLinearRt { weight, bias, lora_a: None, lora_b: None, scale: None, name }
    }

    /// Replace any existing adapter atomically; no shape validation happens
    /// here — mismatches surface on the next forward call.
    pub fn set_adapter(
        &mut self,
        lora_a: candle_core::Tensor,
        lora_b: candle_core::Tensor,
        scale: candle_core::Tensor,
    )
        requires
            dims_of(scale).len() == 0,
        ensures
            *final(self) == old(self).spec_with_adapter(lora_a, lora_b, scale),
            final(self).spec_lora_a() == Some(lora_a),
            final(self).spec_lora_b() == Some(lora_b),
            final(self).spec_scale() == Some(scale),
            final(self).spec_weight() == old(self).spec_weight(),
            final(self).spec_bias() == old(self).spec_bias(),
            final(self).spec_name() == old(self).spec_name(),
            old(self).wf() ==> final(self).wf(),
    {
        self.lora_a = Some(lora_a);
        self.lora_b = Some(lora_b);
        self.scale = Some(scale);
    }

    /// Remove the adapter and return the scale to its inert default;
    /// subsequent forward calls behave as if no adapter was ever attached.
    pub fn clear_adapter(&mut self)
        ensures
            *final(self) == old(self).spec_cleared(),
            final(self).spec_lora_a() is None,
            final(self).spec_lora_b() is None,
            final(self).spec_scale() is None,
            final(self).spec_weight() == old(self).spec_weight(),
            final(self).spec_bias() == old(self).spec_bias(),
            final(self).spec_name() == old(self).spec_name(),
            old(self).wf() ==> final(self).wf(),
    {
        self.lora_a = None;
        self.lora_b = None;
        self.scale = None;
    }

    pub fn name(&self) -> (r: &str)
        ensures
            r@ == self.spec_name(),
    {
        self.name.as_str()
    }

    /// Read the input's device, obtain the matching backend, and delegate
    /// with the unit's current state.  The backend is re-resolved on every
    /// call, so inputs may arrive on different devices across calls.
    pub fn forward(&self, x: &candle_core::Tensor) -> (r: Result<
        candle_core::Tensor,
        candle_core::Error,
    >)
        requires
            self.wf(),
        ensures
            forward_contract(
                *x,
                self.spec_weight(),
                self.spec_bias(),
                self.spec_lora_a(),
                self.spec_lora_b(),
                self.spec_scale(),
                r,
            ),
    {
        let kind = device_kind(x);
        let backend = create_backend(kind);
        let bias_ref = match &self.bias {
            Some(t) => Some(t),
            None => None,
        };
        let a_ref = match &self.lora_a {
            Some(t) => Some(t),
            None => None,
        };
        let b_ref = match &self.lora_b {
            Some(t) => Some(t),
            None => None,
        };
        let s_ref = match &self.scale {
            Some(t) => Some(t),
            None => None,
        };
        backend.forward(x, &self.weight, bias_ref, a_ref, b_ref, s_ref)
    }
}

/// Attaching an adapter and then clearing it restores the unit to exactly
/// the state of one that never received an adapter, the inert default
/// scale included; forward behaviour is a function of that state, so the
/// two units are observationally identical.
pub proof fn lemma_clear_restores_default(
    weight: candle_core::Tensor,
    bias: Option<candle_core::Tensor>,
    name: String,
    lora_a: candle_core::Tensor,
    lora_b: candle_core::Tensor,
    scale: candle_core::Tensor,
)
    ensures
        LoraLinearRt::spec_new(weight, bias, name).spec_with_adapter(
            lora_a,
            lora_b,
            scale,
        ).spec_cleared() == LoraLinearRt::spec_new(weight, bias, name),
{
}

} // verus!

