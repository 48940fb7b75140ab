[package]
name = "trustfall_errors"
version = "0.1.0"
edition = "2021"
publish = false

[dependencies]
async-stream = "0.3"
futures-core = "0.3"
futures-util = "0.3"
serde = { version = "1", features = ["derive"] }
thiserror = "2"
