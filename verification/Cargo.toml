[package]
name = "eqcheck"
version = "0.1.0"
edition = "2021"
publish = false

[dependencies]
rustc-demangle = "0.1"
syn = "1"
anyhow = "1"
clap = { version = "3", features = ["derive"] }
tempfile = "3"
haybale = "0.7"
llvm-ir = "0.8"
boolector = "0.4"
