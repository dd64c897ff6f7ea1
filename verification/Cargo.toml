[package]
name = "relay_hook_transpiler"
version = "0.1.0"
edition = "2021"
publish = false

[dependencies]
anyhow = "=1.0.104"
base64 = "=0.22.1"
jni = "=0.21.1"
libc = "=0.2.191"
serde = { version = "=1.0.229", features = ["derive"] }
serde-wasm-bindgen = "=0.6.5"
swc_core = { version = "=82.2.0", features = ["common", "common_sourcemap", "ecma_ast", "ecma_codegen", "ecma_parser", "ecma_parser_typescript", "ecma_transforms", "ecma_transforms_compat", "ecma_transforms_module", "ecma_transforms_react", "ecma_transforms_typescript", "ecma_visit"] }
wasm-bindgen = "=0.2.129"
