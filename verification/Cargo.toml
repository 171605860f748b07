[package]
name = "sc_executor_wasmedge"
version = "0.1.0"
edition = "2021"
publish = false

[dependencies]
sc-allocator = "=13.0.0"
sc-executor-common = "=0.19.0"
sp-runtime-interface = "=14.0.0"
sp-wasm-interface = "=11.0.0"
substrate-bip39 = "=0.4.4"
wasm-instrument = "=0.3.0"
wasmedge-sys = "=0.5.0"

[dev-dependencies]
wat = "1"
