[package]
name = "plugin_codegen"
version = "0.1.0"
edition = "2021"
publish = false

[dependencies]
proc-macro2 = "1"
syn = "2"
quote = "1"
