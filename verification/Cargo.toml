[package]
name = "qwik_ids"
version = "0.1.0"
edition = "2021"

[dependencies]
base64 = "=0.22.1"
oxc_allocator = "=0.139.0"
oxc_ast = "=0.139.0"
oxc_span = "=0.139.0"
