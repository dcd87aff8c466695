[package]
name = "alex"
version = "0.1.0"
edition = "2021"
publish = false

[dependencies]
bitcode = { version = "0.6", features = ["derive"] }
blake3 = "1"
clap = { version = "4", features = ["derive"] }
colored = "3"
env_logger = "0.11"
lofty = "0.22"
log = "0.4"
rand = "0.9"
rodio = "0.21"
serde = { version = "1", features = ["derive"] }
serde_json = "1"
strsim = "0.11"
tokio = { version = "1", features = ["full"] }
walkdir = "2"
