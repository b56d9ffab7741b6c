[package]
name = "srun_client"
version = "0.1.0"
edition = "2021"
publish = false

[dependencies]
hmac = "0.12"
md-5 = "0.10"
sha1 = "0.10"
httparse = "1"
url = "2"
serde = { version = "1", features = ["derive"] }
serde_json = "1"
clap = { version = "4", features = ["derive"] }
if-addrs = "*"
socket2 = "0.5"
rustls = { version = "0.21", features = ["dangerous_configuration"] }
rustls-native-certs = "0.6"
