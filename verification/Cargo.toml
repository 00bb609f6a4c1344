[package]
name = "fuel_p2p"
version = "0.1.0"
edition = "2021"
publish = false

[dependencies]
rand = "=0.8.8"
sha2 = "=0.10.9"
libp2p = { version = "=0.57.1", default-features = false, features = ["gossipsub"] }
tokio = { version = "=1.54.1", features = ["sync", "time", "rt", "macros"] }
futures = "=0.3.34"
async-trait = "=0.1.92"
anyhow = "=1.0.104"
fuel-tx = "*"
fuel-types = "*"
