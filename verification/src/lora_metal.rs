//! Accelerated backend: mathematically identical to the default backend,
//! but every operand entering a matrix multiplication is first forced into
//! contiguous layout, and multiplication failures carry the operation name
//! and both operand shapes as diagnostic context.
use vstd::prelude::*;

use crate::lora_backend::{adapted_forward, LoraBackend};

verus! {

/// The accelerated execution backend; a stateless value type.
pub struct MetalLoraBackend;

impl MetalLoraBackend {
    pub fn new() -> (r: Self)
        ensures
            r == MetalLoraBackend,
    {
        MetalLoraBackend
    }
}

impl LoraBackend for MetalLoraBackend {
    fn forward(
        &self,
        x: &candle_core::Tensor,
        base_weight: &candle_core::Tensor,
        base_bias: Option<&candle_core::Tensor>,
        lora_a: Option<&candle_core::Tensor>,
        lora_b: Option<&candle_core::Tensor>,
        scale: Option<&candle_core::Tensor>,
    ) -> (r: Result<candle_core::Tensor, candle_core::Error>) {
        adapted_forward(x, base_weight, base_bias, lora_a, lora_b, scale, true)
    }
}

} // verus!
