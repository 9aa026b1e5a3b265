[package]
name = "sway_layout"
version = "0.1.0"
edition = "2021"
publish = false

[dependencies]
anyhow = "1"
derive_more = { version = "*", features = ["from"] }
serde = { version = "1", features = ["derive"] }
swayipc = "3"
