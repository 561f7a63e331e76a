[package]
name = "snowflake_driver"
version = "0.1.0"
edition = "2021"
publish = false

[dependencies]
serde = { version = "=1.0.229", features = ["derive"] }
serde_json = "=1.0.151"
base64 = "=0.23.1"
flate2 = "=1.1.10"
uuid = { version = "=1.27.0", features = ["v4"] }
arrow-array = "=60.0.0"
arrow-schema = "=60.0.0"
arrow-ipc = "=60.0.0"
arrow-cast = "=60.0.0"
chrono = "=0.4.45"
futures-util = "=0.3.34"
reqwest = { version = "=0.12.28", default-features = false, features = ["rustls-tls", "gzip"] }
rsa = { version = "=0.9.10", features = ["sha2"] }
