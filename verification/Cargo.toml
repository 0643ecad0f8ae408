[package]
name = "lux"
version = "0.1.0"
edition = "2021"
publish = false

[dependencies]
serde = { version = "1", features = ["derive"] }
serde_json = "1"
unicode-segmentation = "1"
parking_lot = "0.12"
tokio = { version = "1", features = ["sync", "rt", "time", "macros"] }
mlua = { version = "0.10", features = ["lua54", "vendored"] }
dirs = "5"
thiserror = "1"
futures = "0.3"
tracing = "0.1"
tracing-subscriber = { version = "0.3", features = ["env-filter"] }
wait-timeout = "0.2"
