[package]
name = "open_grant"
version = "0.1.0"
edition = "2021"
publish = false

[dependencies]
integer-sqrt = "=0.1.5"
serde = { version = "=1.0.229", features = ["derive"] }

[dev-dependencies]
sp-runtime = "=49.0.0"
