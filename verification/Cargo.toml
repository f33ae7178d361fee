[package]
name = "protofish"
version = "0.1.0"
edition = "2021"
publish = false

[dependencies]
tokio = { version = "1", features = ["sync", "rt", "rt-multi-thread", "macros", "time", "io-util"] }
bytes = "1"
async-trait = "0.1"
quinn = "0.11"
rustls = "0.23"
rustls-pemfile = "2"
dashmap = "6"
parking_lot = "0.12"
thiserror = "2"
tracing = "0.1"
