[package]
name = "pbc_config"
version = "0.1.0"
edition = "2021"
publish = false

[dependencies]
anyhow = "*"
clap = { version = "*", default-features = false, features = ["derive", "std", "help", "usage", "error-context"] }
serde = { version = "*", features = ["derive"] }
serde_json = "*"
subxt = "*"
subxt-signer = { version = "*", default-features = false, features = ["sr25519", "subxt"] }
tokio = { version = "*", features = ["rt-multi-thread", "macros"] }
