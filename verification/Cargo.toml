[package]
name = "candle_lora"
version = "0.1.0"
edition = "2021"
publish = false

[dependencies]
candle-core = "=0.11.0"
candle-nn = "=0.11.0"
tracing = "*"
