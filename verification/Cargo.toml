[package]
name = "guest_build"
version = "0.1.0"
edition = "2021"
publish = false

[dependencies]
cargo_metadata = "*"
chrono = "*"
dirs = "*"
serde = { version = "*", features = ["derive"] }
serde_json = "*"
sp1-helper = "*"
