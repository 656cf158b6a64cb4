[package]
name = "httpbin"
version = "0.1.0"
edition = "2021"
publish = false

[dependencies]
base64 = "=0.21.7"
brotli = "=9.0.0"
deflate = { version = "=1.0.0", features = ["gzip"] }
fastly = "=0.13.1"
getrandom = "=0.2.17"
rand = "=0.8.8"
regex = "=1.13.1"
regex-lite = "=0.1.9"
rust-embed = { version = "=8.13.0", features = ["interpolate-folder-path"] }
serde = "=1.0.229"
serde_json = "=1.0.154"
serde_urlencoded = "=0.7.1"
utoipa = "=6.0.0"
uuid = { version = "=1.29.0", features = ["v4"] }
