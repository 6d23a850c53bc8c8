[package]
name = "clouddesk"
version = "0.1.0"
edition = "2021"
publish = false

[dependencies]
serde = { version = "=1.0.229", features = ["derive"] }
serde_json = "=1.0.154"
quick-xml = "=0.37.5"
sha2 = "=0.10.9"
hex = "=0.4.3"
subtle = "=2.6.1"
rand = "=0.8.8"
http = "=1.5.0"
cap-std = "=4.0.3"
zip = { version = "=9.2.2", default-features = false, features = ["deflate"] }
tar = "=0.4.46"
flate2 = "=1.1.10"
tokio = { version = "=1.54.1", features = ["full"] }
reqwest = { version = "=0.12.28", default-features = false }
sqlx = { version = "=0.8.6", default-features = false, features = ["sqlite", "runtime-tokio"] }
thiserror = "=2.0.21"
zeroize = "=1.9.1"
rustix = { version = "=1.1.6", features = ["process"] }
clap = { version = "4", features = ["derive"] }
anyhow = "1"
