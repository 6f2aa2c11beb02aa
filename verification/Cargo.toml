[package]
name = "dexloader"
version = "0.1.0"
edition = "2021"
publish = false

[dependencies]
async-trait = "0.1"
epub-builder = "*"
futures = "0.3"
image = { version = "*", default-features = false, features = ["jpeg", "png"] }
reqwest = { version = "*", features = ["json"] }
serde = { version = "1", features = ["derive"] }
tokio = { version = "1", features = ["full"] }
