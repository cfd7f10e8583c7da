[package]
name = "wasm_metering"
version = "0.1.0"
edition = "2021"
publish = false

[dependencies]
wasmer = "=7.0.1"
wasmer-types = "=7.0.1"
wasmer-vm = "=7.0.1"
tokio = { version = "=1.54.1", features = ["rt", "rt-multi-thread", "time"] }
futures = "=0.3.34"
rusty_pool = "=1.0.0"
tracing = "=0.1.44"
