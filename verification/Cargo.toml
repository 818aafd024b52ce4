[package]
name = "vault_core"
version = "0.1.0"
edition = "2021"
publish = false

[dependencies]
threshold_crypto = "=0.4.0"
pickledb = "=0.4.1"
fake_clock = "=0.3.1"
tiny-keccak = { version = "=2.0.2", features = ["sha3"] }
futures = "=0.3.34"
serde = { version = "=1.0.229", features = ["derive"] }
bincode = "=1.3.3"

[dev-dependencies]
tempdir = "=0.3.7"
rand = "=0.7.3"
