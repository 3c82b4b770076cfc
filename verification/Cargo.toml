[package]
name = "lancedb"
version = "0.1.0"
edition = "2021"
publish = false

[dependencies]
url = "=2.5.8"
reqwest = { version = "=0.12.28", default-features = false, features = ["blocking"] }
object_store = { version = "=0.14.2", features = ["cloud-base"] }
async-trait = "=0.1.92"
