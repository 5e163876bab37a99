[package]
name = "barter"
version = "0.1.0"
edition = "2021"
publish = false

[dependencies]
barter-instrument = "*"
barter-integration = "*"
rust_decimal = "1"
chrono = "0.4"
serde = { version = "1", features = ["derive"] }
serde_json = "1"
smol_str = "0.3"
convert_case = "*"
tokio = { version = "1", features = ["full"] }
tokio-stream = { version = "0.1", features = ["sync"] }
futures = "0.3"
tracing = "0.1"
url = "2"
fnv = "1"
itertools = "*"
vecmap-rs = "*"
