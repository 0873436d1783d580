[package]
name = "sshtun"
version = "0.1.0"
edition = "2021"
publish = false

[dependencies]
anyhow = "1"
async-trait = "0.1"
clap = { version = "4", features = ["derive"] }
dirs = "5"
glob = "0.3"
russh = "0.45"
russh-keys = "0.45"
sha2 = "0.10"
socket2 = { version = "0.5", features = ["all"] }
ssh2-config = "*"
tokio = { version = "1", features = ["full"] }
tokio-tun = "0.11"
tracing = "0.1"
tracing-subscriber = "0.3"
