[package]
name = "struct_index"
version = "0.1.0"
edition = "2021"

[dev-dependencies]
proc-macro2 = "1"
