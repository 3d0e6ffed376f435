[package]
name = "sandbox"
version = "0.1.0"
edition = "2021"
publish = false

[dependencies]
object = { version = "0.36", default-features = false, features = ["read_core", "macho", "std", "unaligned"] }
page_size = "0.6"
anyhow = "1"
libc = "0.2"
tracing = "0.1"
bytemuck = { version = "1", features = ["derive"] }
fn-ptr = "*"
disarm64 = "*"
