[package]
name = "hzii-net"
version = "0.1.0"
edition = "2021"
publish = false

[dependencies]
aes = "0.8"
cbc = { version = "0.1", features = ["alloc", "block-padding"] }
base64 = "0.22"
rand = "0.8"
serde_json = "1"
serde = { version = "1", features = ["derive"] }
toml = "0.8"
ureq = "2"
clap = { version = "4", features = ["derive", "env"] }
anyhow = "1"
thiserror = "1"
