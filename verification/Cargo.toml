[package]
name = "fleetcore"
version = "0.1.0"
edition = "2021"
publish = false

[dependencies]
axum = "0.7"
base64 = "0.22"
futures = "0.3"
nanoid = "0.4"
percent-encoding = "2"
pqcrypto-dilithium = "0.5"
pqcrypto-traits = "0.3"
rand = "0.8"
reqwest = { version = "0.12", default-features = false, features = ["json"] }
risc0-zkvm = { version = "*", default-features = false, features = ["client"] }
rsa = "0.9"
serde = { version = "1", features = ["derive"] }
serde_json = "1"
sha2 = "0.10"
tokio = { version = "1", features = ["full"] }
tokio-stream = { version = "0.1", features = ["sync"] }
