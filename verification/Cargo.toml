[package]
name = "xm_format"
version = "0.1.0"
edition = "2021"
publish = false

[dependencies]
aes = "=0.8.4"
cbc = { version = "=0.1.2", features = ["block-padding", "alloc"] }
hex = "=0.4.3"
base64 = "=0.22.1"
wasmer = "=6.1.0"
wasmer-compiler-cranelift = "=6.1.0"
serde = { version = "=1.0.229", features = ["derive"] }
serde_json = "=1.0.154"
thiserror = "=1.0.69"
lazy_static = "=1.5.1"
libc = "=0.2.191"
id3 = "=1.17.2"

[dev-dependencies]
wat = "1"
