[package]
name = "arrow_flight_worker"
version = "0.1.0"
edition = "2021"
publish = false

[dependencies]
anyhow = "1"
arrow-array = "*"
arrow-cast = { version = "*", features = ["prettyprint"] }
arrow-flight = "*"
arrow-ipc = "*"
arrow-schema = "*"
base64 = "*"
bytes = "1"
clap = { version = "4", features = ["derive", "env"] }
futures = "0.3"
hmac = "*"
object_store = { version = "*", features = ["aws"] }
parquet = { version = "*", features = ["arrow", "async", "object_store", "snap", "lz4"] }
serde = { version = "1", features = ["derive"] }
serde_json = "1"
sha2 = "*"
tokio = { version = "1", features = ["full"] }
tokio-postgres = { version = "*", features = ["with-serde_json-1"] }
tonic = { version = "*", features = ["tls-ring"] }
tracing = "0.1"
tracing-subscriber = { version = "0.3", features = ["env-filter"] }
uuid = { version = "1", features = ["v4"] }
