[package]
name = "no_redeclare"
version = "0.1.0"
edition = "2021"
publish = false

[dependencies]
oxc_ast = "0.6"
oxc_diagnostics = "0.6"
oxc_semantic = "0.6"
oxc_span = "0.6"
serde_json = "1"

[dev-dependencies]
oxc_allocator = "0.6"
oxc_parser = "0.6"
