[package]
name = "gen4ids"
version = "0.1.0"
edition = "2021"
publish = false

[dependencies]
bytemuck = { version = "1", features = ["extern_crate_alloc"] }
console_error_panic_hook = "0.1"
console_log = "1"
futures-intrusive = "0.5"
wasm-bindgen = "0.2"
wasm-bindgen-futures = "0.4"
wgpu = "0.17"
