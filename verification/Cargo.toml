[package]
name = "bit_coin"
version = "0.1.0"
edition = "2021"
publish = false

[dependencies]
sha2 = "0.10"
ripemd = "0.1"
hex = "0.4"
secp256k1 = { version = "0.29", features = ["rand"] }
rand = "0.8"
sled = "0.34"
serde = { version = "1", features = ["derive"] }
serde_json = "1"
clap = { version = "4", features = ["derive"] }
log = "0.4"
env_logger = "0.11"
tokio = { version = "1", features = ["net", "io-util", "sync", "rt", "macros"] }
pollster = "0.3"
bytemuck = { version = "1", features = ["derive"] }
wgpu = "22"
