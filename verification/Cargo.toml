[package]
name = "dytallix_node"
version = "0.1.0"
edition = "2021"
publish = false

[dependencies]
anyhow = "1"
base64 = "0.22"
bincode = "1.3"
fips204 = "0.4"
once_cell = "1"
serde = { version = "1", features = ["derive"] }
zeroize = "1"
