[package]
name = "pp2p_core"
version = "0.1.0"
edition = "2021"
publish = false

[dependencies]
base64 = "=0.22.1"
ed25519-dalek = { version = "=2.2.0", features = ["rand_core"] }
rand = "=0.8.8"
serde = { version = "=1.0.229", features = ["derive"] }
serde_jcs = "=0.1.0"
serde_json = { version = "=1.0.154", features = ["unbounded_depth"] }
sha2 = "=0.10.9"
thiserror = "=1.0.69"
