[package]
name = "gloas_consensus"
version = "0.1.0"
edition = "2021"
publish = false

[dependencies]
safe_arith = "=0.1.0"
tree_hash = "=0.10.0"
serde = { version = "1", features = ["derive"] }
tokio = { version = "1", default-features = false, features = ["rt", "time", "sync"] }
futures = { version = "0.3", default-features = false, features = ["std"] }
tracing = { version = "0.1", default-features = false, features = ["std"] }
warp = { version = "0.3", default-features = false }

[dev-dependencies]
ethereum_ssz = "=0.9.1"
ethereum_ssz_derive = "0.9"
ssz_types = "0.11"
