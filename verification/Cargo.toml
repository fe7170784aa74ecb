[package]
name = "host"
version = "0.1.0"
edition = "2021"
publish = false

[dependencies]
qfilter = { version = "=0.3.1", features = ["serde", "legacy_x86_64_support"] }
risc0-zkvm = { version = "=1.2.6", default-features = false, features = ["client"] }
serde = { version = "=1.0.229", features = ["derive"] }
serde_json = "=1.0.154"
bincode = "=1.3.3"
anyhow = "=1.0.104"
once_cell = "=1.21.4"
tokio = { version = "=1.54.1", features = ["macros", "rt-multi-thread"] }
tonic = "=0.12.3"
prost = "=0.13.5"
tracing-subscriber = { version = "=0.3.23", features = ["env-filter"] }
