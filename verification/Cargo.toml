[package]
name = "shuttle_service"
version = "0.1.0"
edition = "2021"
publish = false

[dependencies]
async-trait = "*"
serde = { version = "*", features = ["derive"] }
reqwest = { version = "*", default-features = false }
