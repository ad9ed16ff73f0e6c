[package]
name = "evm_client"
version = "0.1.0"
edition = "2021"
publish = false

[dependencies]
dotenv = "0.15"
ethers = { version = "=2.0.14", default-features = false, features = ["rustls"] }
ethers-core = "=2.0.14"
ethers-signers = "=2.0.14"
eyre = "0.6"
hex = "0.4"
tokio = { version = "1", features = ["macros", "rt-multi-thread"] }
