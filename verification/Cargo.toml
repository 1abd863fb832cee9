[package]
name = "calx_vm"
version = "0.1.0"
edition = "2021"
publish = false

[dependencies]
rustc_apfloat = "*"
cirru_parser = "*"
clap = "*"
