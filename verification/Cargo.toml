[package]
name = "swc_plugin_jsx_attrs"
version = "0.1.0"
edition = "2021"
publish = false

[dependencies]
serde = { version = "=1.0.219", features = ["derive"] }
serde_json = "=1.0.143"
swc_core = { version = "=23.2.0", features = ["cached", "common", "ecma_ast", "ecma_visit", "ecma_codegen", "ecma_plugin_transform"] }
swc_plugin_macro = "=1.1.0"
