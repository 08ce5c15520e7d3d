[package]
name = "protoc_gen_ts"
version = "0.1.0"
edition = "2021"
publish = false

[dependencies]
protobuf = "3"
swc_common = "*"
swc_ecma_ast = "*"
swc_ecma_codegen = "*"
swc_ecma_utils = "*"
