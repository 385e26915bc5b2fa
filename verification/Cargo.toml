[package]
name = "system-logs-diagnostic"
version = "3.0.0"
edition = "2021"
publish = false

[dependencies]
memchr = "=2.8.3"
regex = "=1.13.1"
chrono = "=0.4.45"
serde = { version = "=1.0.229", features = ["derive"] }
serde_json = "=1.0.154"
smallvec = "=1.16.5"
tantivy = "=0.22.1"
parking_lot = "=0.12.5"
arc-swap = "=1.9.3"
rayon = "=1.12.0"
tokio = { version = "=1.54.1", features = ["rt-multi-thread"] }
once_cell = "=1.21.4"
async-channel = "=2.5.0"
gtk4 = { version = "=0.9.7", features = ["v4_12"] }
libadwaita = { version = "=0.7.2", features = ["v1_5"] }
flate2 = "=1.1.10"
tar = "=0.4.46"
thiserror = "=1.0.69"
anyhow = "=1.0.104"
notify = "=6.1.1"
ignore = "=0.4.34"
dirs-next = "=2.0.0"
tracing = "=0.1.44"
tracing-subscriber = { version = "=0.3.23", features = ["env-filter"] }
