[package]
name = "arq"
version = "0.1.0"
edition = "2021"
publish = false

[dependencies]
chrono = "0.4"
flate2 = "1"
futures = "0.3"
glob = "0.3"
gumdrop = "0.8"
hex = "0.4"
log = "0.4"
openssl = "0.10"
plist = "1"
rusoto_core = "*"
rusoto_s3 = "*"
serde = { version = "1", features = ["derive"] }
simple_logger = "*"
tokio = { version = "1", features = ["rt-multi-thread"] }
toml = "0.5"
trait-async = "*"
uuid = "0.8"
