[package]
name = "ows_wallet"
version = "0.1.0"
edition = "2021"
publish = false

[dependencies]
k256 = { version = "0.13", features = ["ecdsa"] }
sha2 = "0.10"
ripemd = "0.1"
bs58 = { version = "0.5", features = ["check"] }
hex = "0.4"
serde = { version = "1", features = ["derive"] }
serde_json = "1"
chrono = { version = "0.4", default-features = false, features = ["clock", "std"] }
uuid = { version = "1", features = ["v4"] }
reqwest = { version = "0.12", default-features = false, features = ["json"] }

[dev-dependencies]
bip32 = "0.5"
bip39 = "2"
