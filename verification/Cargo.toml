[package]
name = "dombuilder"
version = "0.1.0"
edition = "2021"
publish = false

[dependencies]
sha256 = { version = "1", default-features = false }
serde_json = "1"
tokio = { version = "1", features = ["rt-multi-thread", "sync", "macros", "time"] }
rlua = "0.19"
reqwest = { version = "0.11", default-features = false, features = ["blocking", "json"] }
