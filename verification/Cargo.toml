[package]
name = "looper_processor"
version = "0.1.0"
edition = "2021"
publish = false

[dependencies]
rand = "=0.8.8"
bytesize = "=1.3.3"
thiserror = "=1.0.69"
anyhow = "=1.0.104"
serde = { version = "1", features = ["derive"] }
rmp-serde = "1"
