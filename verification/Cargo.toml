[package]
name = "rlox"
version = "0.1.0"
edition = "2021"
publish = false

[dependencies]
rustc-hash = "2"
anyhow = "1"
colored = "2"
serde = { version = "1", features = ["derive"] }
syn = "2"
quote = "1"
proc-macro2 = "1"
