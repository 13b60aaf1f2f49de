[package]
name = "worker_lib"
version = "0.1.0"
edition = "2021"
publish = false

[dependencies]
anyhow = "1"
landlock = "*"
libc = "0.2"
memmap2 = "0.9"
seccompiler = "*"
