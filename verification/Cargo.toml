[package]
name = "zome_utils"
version = "0.1.0"
edition = "2021"
publish = false

[dependencies]
hdk = "0.4"
serde = { version = "1", features = ["derive"] }
