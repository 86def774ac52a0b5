[package]
name = "prog-lang"
version = "0.1.0"
edition = "2021"
publish = false

[dependencies]
anyhow = "1"
ariadne = "0.5"
bincode = "1.3"
indent = "0.1"
serde = { version = "1", features = ["derive"] }
