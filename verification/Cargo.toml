[package]
name = "node_metrics"
version = "0.1.0"
edition = "2021"
publish = false

[dependencies]
axum = { version = "0.7", features = ["ws"] }
axum-server = { version = "0.6", features = ["tls-rustls"] }
chrono = "0.4"
lazy_static = "1"
minify-html = "0.15"
rustls = "0.21"
rustls-pemfile = "1"
serde_json = "1"
sysinfo = "0.30"
tera = "1"
tokio = { version = "1", features = ["full"] }
