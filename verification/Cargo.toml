[package]
name = "rcore_kernel"
version = "0.1.0"
edition = "2021"
publish = false

[dependencies]
riscv = "0.10"
lazy_static = "1.4"
backtrace = "0.3"
