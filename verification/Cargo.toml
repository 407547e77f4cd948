[package]
name = "cold_tier"
version = "0.1.0"
edition = "2021"
publish = false

[dependencies]
imago = { version = "*", features = ["sync-wrappers"] }
kvm-bindings = "0.14"
kvm-ioctls = "0.24"
libc = "0.2"
serde = { version = "1", features = ["derive"] }
serde_json = "1"
tokio = { version = "1", features = ["rt"] }
vm-memory = { version = "0.16", features = ["backend-mmap"] }
