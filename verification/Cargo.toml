[package]
name = "spaz"
version = "0.1.0"
edition = "2021"
publish = false

[dependencies]
anyhow = "1"
cln-plugin = "*"
cln-rpc = "*"
log = "0.4"
rand = "0.8"
serde = { version = "1", features = ["derive"] }
serde_json = "1"
tokio = { version = "1", features = ["macros", "rt-multi-thread", "time", "io-std", "io-util"] }
