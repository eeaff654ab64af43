[package]
name = "zeroos_core"
version = "0.1.0"
edition = "2021"
publish = false

[dependencies]
libc = "0.2"
clap = { version = "4", features = ["derive"] }
clap-cargo = "*"
derive_builder = "0.20"
serde = { version = "1", features = ["derive"] }
serde_json = "1"
serde_yaml = "0.9"
log = "0.4"
riscv = "0.10"
