[package]
name = "validator-firewall"
version = "0.1.0"
edition = "2021"
publish = false

[dependencies]
anyhow = "1"
aya = "0.13"
aya-ebpf = "0.1"
aya-log = "0.2"
aya-log-ebpf = "0.1"
axum = "0.8"
cidr = { version = "=0.3.2", features = ["serde"] }
clap = { version = "4", features = ["derive"] }
duckdb = { version = "1", default-features = false }
libc = "0.2"
log = "0.4"
network-types = "=0.2.0"
rangemap = "=1.8.0"
reqwest = { version = "0.12", default-features = false, features = ["json", "rustls-tls"] }
serde = { version = "1", features = ["derive"] }
serde_json = "1"
tokio = { version = "1", features = ["full"] }
tracing-subscriber = { version = "0.3", features = ["json"] }
