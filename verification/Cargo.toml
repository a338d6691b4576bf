[package]
name = "hap"
version = "0.1.0"
edition = "2021"
publish = false

[dependencies]
base64 = "0.13"
ed25519-dalek = { version = "1.0", features = ["serde"] }
futures = "0.3"
hyper = { version = "0.14", features = ["server", "http1", "tcp"] }
if-addrs = "0.15"
libmdns = "0.10"
log = "0.4"
macaddr = { version = "1.0", features = ["serde_std"] }
rand = "0.7"
serde = { version = "1.0", features = ["derive"] }
serde_json = "1.0"
sha2 = "0.10"
tokio = { version = "1", features = ["net", "rt", "rt-multi-thread"] }
uuid = { version = "1", features = ["serde"] }
