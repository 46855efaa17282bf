[package]
name = "aves_ir"
version = "0.1.0"
edition = "2021"
publish = false

[dependencies]
clap = { version = "=4.6.7", features = ["derive"] }
serde = { version = "=1.0.229", features = ["derive"] }
ipc-channel = "=0.15.0"
mitosis = "=0.1.1"

[dev-dependencies]
nom = "=7.1.3"
