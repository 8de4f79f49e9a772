[package]
name = "proxy_fs"
version = "0.1.0"
edition = "2021"
publish = false

[dependencies]
libc = "0.2"
log = "0.4"
virtio-bindings = "0.2"
vm-memory = { version = "0.16", features = ["backend-mmap"] }
vsock = "0.5"
