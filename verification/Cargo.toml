[package]
name = "bifrost"
version = "0.1.0"
edition = "2021"
publish = false

[dependencies]
anyhow = "1"
async-trait = "0.1"
axum = { version = "0.7", features = ["ws"] }
bytes = "1"
clap = { version = "4", features = ["derive"] }
futures = "0.3"
ipnet = "2"
libc = "0.2"
mime_guess = "2"
netlink-packet-route = "0.19"
nix = { version = "0.29", features = ["ioctl"] }
postcard = { version = "1", features = ["use-std"] }
rtnetlink = "0.14"
rust-embed = "8"
rustyline = "14"
serde = { version = "1", features = ["derive"] }
serde_bytes = "0.11"
serde_json = "1"
thiserror = "1"
tokio = { version = "1", features = ["full"] }
tokio-socks = "0.5"
tokio-util = { version = "0.7", features = ["codec"] }
toml = "0.8"
tower-http = { version = "0.5", features = ["trace"] }
tracing = "0.1"
tracing-subscriber = { version = "0.3", features = ["env-filter"] }
uuid = { version = "1", features = ["v4", "serde"] }
