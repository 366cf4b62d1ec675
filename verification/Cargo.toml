[package]
name = "blockchain"
version = "0.1.0"
edition = "2021"
publish = false

[dependencies]
byteorder = "1"
data-encoding = "2"
ring = "0.17"
rocket = { version = "0.5", features = ["json"] }
serde = { version = "1", features = ["derive"] }
serde_json = "1"
uuid = { version = "1", features = ["v4"] }
