[package]
name = "boxlib"
version = "0.1.0"
edition = "2021"
publish = false

[dependencies]
clap = { version = "4", features = ["derive"] }
serde = { version = "1", features = ["derive"] }
toml = "*"
documented = "*"
struct-field-names-as-array = "*"
