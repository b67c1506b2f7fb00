[package]
name = "bpf_rsp"
version = "0.1.0"
edition = "2021"
publish = false

[dependencies]
gdbstub = "0.6"
