[package]
name = "travelmux"
version = "0.1.0"
edition = "2021"
publish = false

[dependencies]
geo = "*"
georaster = "*"
serde = { version = "*", features = ["derive"] }
serde_json = "*"
serde_repr = "*"

[dev-dependencies]
polyline = "*"
