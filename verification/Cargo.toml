[package]
name = "psh"
version = "0.1.0"
edition = "2021"
publish = false

[dependencies]
gimli = "=0.31.1"
object = { version = "=0.36.7", features = ["unaligned"] }
typed-arena = "=2.0.2"
memmap2 = "=0.9.12"
anyhow = "=1.0.104"
thiserror = "=1.0.69"
libc = "=0.2.191"
errno = "=0.3.14"
lazy_static = "=1.5.1"
libbpf-rs = "=0.27.2"
