[package]
name = "autograd"
version = "0.1.0"
edition = "2021"
publish = false

[dependencies]
num_cpus = "1"
libc = "0.2"
wgpu = "*"
tracing = "0.1"
thiserror = "*"
