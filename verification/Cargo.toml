[package]
name = "lighty_launcher"
version = "26.5.1"
edition = "2021"
publish = false

[dependencies]
sha1 = "=0.10.7"
hex = "=0.4.3"
fastrand = "=2.5.0"
tokio = { version = "=1.54.1", features = ["full"] }
reqwest = { version = "=0.12.28", default-features = false, features = ["json", "stream", "rustls-tls"] }
dirs = "=7.0.0"
once_cell = "=1.21.4"
serde = { version = "=1.0.229", features = ["derive"] }
serde_json = "=1.0.154"
thiserror = "=2.0.21"
zip = { version = "=9.2.2", default-features = false, features = ["deflate"] }
memmap2 = "=0.9.12"
nix = { version = "=0.31.3", features = ["signal"] }
futures = "=0.3.34"
tracing = "=0.1.44"
path-absolutize = "=4.0.1"
flate2 = "=1.1.10"
tar = "0.4"
