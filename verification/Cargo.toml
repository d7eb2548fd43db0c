[package]
name = "nimble"
version = "0.1.0"
edition = "2021"
publish = false

[dependencies]
clap = { version = "=4.6.7", features = ["derive"] }
colored = "=3.1.1"
miette = { version = "=7.6.0", features = ["fancy"] }
rustyline = "=19.0.0"
cranelift-codegen = "=0.123.20"
cranelift-frontend = "=0.123.20"
cranelift-jit = "=0.123.20"
cranelift-module = "=0.123.20"
