[package]
name = "translation_converter"
version = "0.1.0"
edition = "2021"
publish = false

[dependencies]
swc_common = "*"
swc_core = { version = "*", features = ["ecma_plugin_transform"] }
swc_ecma_ast = "*"
swc_ecma_parser = "*"
swc_ecma_visit = "*"
