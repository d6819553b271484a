//! Default backend: correct on any device, with no memory-layout
//! enforcement before matrix multiplication.
use vstd::prelude::*;

use crate::lora_backend::{adapted_forward, LoraBackend};

verus! {

/// The default execution backend; a stateless value type.
pub struct CpuLoraBackend;

impl CpuLoraBackend {
    pub fn new() -> (r: Self)
        ensures
            r == CpuLoraBackend,
    {
        CpuLoraBackend
    }
}

impl LoraBackend for CpuLoraBackend {
    fn forward(
        &self,
        x: &candle_core::Tensor,
        base_weight: &candle_core::Tensor,
        base_bias: Option<&candle_core::Tensor>,
        lora_a: Option<&candle_core::Tensor>,
        lora_b: Option<&candle_core::Tensor>,
        scale: Option<&candle_core::Tensor>,
    ) -> (r: Result<candle_core::Tensor, candle_core::Error>) {
        adapted_forward(x, base_weight, base_bias, lora_a, lora_b, scale, false)
    }
}

} // verus!
