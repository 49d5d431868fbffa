[package]
name = "wsproxy"
version = "0.1.0"
edition = "2021"
publish = false

[dependencies]
matchit = "0.8"
rustls-pemfile = "2"
tokio-tungstenite = "0.26"
sysinfo = "0.33"
tokio = { version = "1", features = ["full"] }
tokio-rustls = { version = "0.26", default-features = false, features = ["logging", "tls12", "ring"] }
futures-util = "0.3"
rcgen = "0.13"
webpki-roots = "0.26"
serde = { version = "1", features = ["derive"] }
serde_json = "1"
toml = "0.8"
notify = "8"
libc = "0.2"
anyhow = "1"
clap = { version = "4", features = ["derive"] }
