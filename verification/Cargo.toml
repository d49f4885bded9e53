[package]
name = "os_info"
version = "0.1.0"
edition = "2021"
publish = false

[dependencies]
libc = "*"
serde = { version = "*", features = ["derive"] }
windows-registry = "*"
windows-version = "*"
