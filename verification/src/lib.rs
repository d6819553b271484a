pub mod shape;
pub mod tensor_ops;
pub mod lora_backend;
pub mod lora_cpu;
pub mod lora_metal;

pub use lora_backend::{create_backend, BackendHandle, LoraBackend, LoraLinearRt};
pub use tensor_ops::DeviceKind;
pub use lora_cpu::CpuLoraBackend;
pub use lora_metal::MetalLoraBackend;
