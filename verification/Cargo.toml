[package]
name = "libra_core"
version = "0.1.0"
edition = "2021"
publish = false

[dependencies]
chrono = "0.4"
idgenerator = "2"
path_abs = "0.5"
pathdiff = "0.2"
serde = { version = "1", features = ["derive"] }
sha1 = "0.10"
