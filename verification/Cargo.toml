[package]
name = "adodb"
version = "0.1.0"
edition = "2021"
publish = false

[dependencies]
cosmwasm-std = "1.5"
cw-storage-plus = "1.2"
cw2 = "1.1"
semver = "1.0"
serde = { version = "1.0", default-features = false, features = ["derive"] }
