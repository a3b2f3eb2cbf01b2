[package]
name = "lol2"
version = "0.1.0"
edition = "2021"
publish = false

[dependencies]
anyhow = "1"
async-stream = "0.3"
async-trait = "0.1"
bytes = "1"
derive_more = { version = "*", features = ["display", "from_str"] }
futures = "0.3"
http-serde = "*"
serde = { version = "1", features = ["derive"] }
shrinkwraprs = "0.3"
tokio = { version = "1", features = ["full"] }
tonic = "*"
