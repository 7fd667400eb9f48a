[package]
name = "hl_signer"
version = "0.1.0"
edition = "2021"
publish = false

[dependencies]
alloy = { version = "*", default-features = false, features = ["std", "signer-local"] }
serde = { version = "*", features = ["derive"] }
serde_json = "*"
thiserror = "*"

[dev-dependencies]
rmp-serde = "*"
ethers-core = "*"
