[package]
name = "scribec"
version = "0.1.0"
edition = "2021"
publish = false

[dependencies]
thrift = "0.17"
argh = "0.1"
