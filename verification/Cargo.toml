[package]
name = "imap-client"
version = "0.1.0"
edition = "2021"
publish = false

[dependencies]
imap-next = { version = "=0.3.4", features = ["ext_id", "tag_generator"] }
smol = "=2.0.2"
tokio = { version = "=1.54.1", features = ["io-util", "net", "rt", "time"] }
rip-starttls = { version = "=0.1.0", features = ["std"] }
futures-rustls = "=0.26.0"
rustls-platform-verifier = "=0.7.1"
async-native-tls = "=0.6.0"
thiserror = "=2.0.21"
tracing = "=0.1.44"
