[package]
name = "xet"
version = "0.1.0"
edition = "2021"
publish = false

[dependencies]
base64 = "0.23"
dirs = "=7.0.0"
futures = "=0.3.34"
once_cell = "=1.21.4"
reqwest = { version = "=0.13.5", default-features = false, features = ["json", "stream"] }
serde = { version = "=1.0.229", features = ["derive"] }
sha2 = "0.10"
tokio = { version = "=1.53.2", features = ["rt-multi-thread", "sync", "time", "fs", "io-util", "macros"] }
tracing = "=0.1.44"
tracing-subscriber = { version = "=0.3.23", features = ["env-filter", "fmt"] }
ulid = "=3.0.0"
