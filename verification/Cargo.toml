[package]
name = "hft_pipeline"
version = "0.1.0"
edition = "2021"
publish = false

[dependencies]
anyhow = "1"
bincode = "2"
chrono = "0.4"
clap = { version = "4", features = ["derive"] }
clickhouse = { version = "0.13", default-features = false, features = ["time"] }
flate2 = "1"
futures-util = "0.3"
iceoryx2 = "0.7"
iceoryx2-bb-posix = "0.7"
reqwest = { version = "0.12", default-features = false, features = ["json"] }
serde = { version = "1", features = ["derive"] }
serde_json = "1"
tempfile = "3"
thiserror = "2"
time = "0.3"
tokio = { version = "1", features = ["full"] }
tokio-tungstenite = "0.27"
toml = "0.9"
tracing = "0.1"
tracing-subscriber = { version = "0.3", features = ["env-filter"] }
zip = { version = "4", default-features = false, features = ["deflate"] }
