[package]
name = "capsule_store"
version = "0.1.0"
edition = "2021"
publish = false

[dependencies]
candid = "*"
ic-cdk = "*"
ic-stable-structures = "*"
serde = { version = "*", features = ["derive"] }
