[package]
name = "caetun"
version = "0.1.0"
edition = "2021"
publish = false

[dependencies]
anyhow = "1"
clap = { version = "4", features = ["derive"] }
etherparse = "*"
ip_network = "0.4"
ip_network_table = "0.2"
libc = "0.2"
nix = { version = "*", features = ["event"] }
serde = { version = "1", features = ["derive"] }
serde_ini = "0.2"
serde_json = "1"
socket2 = "*"
thiserror = "*"
tracing = "0.1"
tracing-subscriber = "0.3"
