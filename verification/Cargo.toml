[package]
name = "anon_pipeline"
version = "0.1.0"
edition = "2021"
publish = false

[dependencies]
rand = "0.8"
tokio = { version = "1", features = ["rt-multi-thread", "net", "sync", "time", "io-util"] }
lazy_static = "1"
async-trait = "0.1"
socket2 = "0.5"
serde = { version = "1", features = ["derive"] }
base64 = "0.21"
reqwest = { version = "0.11", default-features = false, features = ["json", "rustls-tls"] }
rustls = "0.21"
rustls-native-certs = "0.6"
tokio-rustls = "0.24"
ssh2 = "0.9"
