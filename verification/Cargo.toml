[package]
name = "music_mic"
version = "0.1.0"
edition = "2021"
publish = false

[dependencies]
anyhow = "=1.0.104"
cpal = "=0.17.3"
crossbeam-channel = "=0.5.17"
dasp_sample = "=0.11.0"
dioxus = { version = "=0.6.3", default-features = false, features = ["macro", "html", "signals", "hooks", "launch", "document", "asset"] }
dirs = "=7.0.0"
nnnoiseless = "=0.5.2"
parking_lot = "=0.13.0"
rtrb = "=0.4.1"
rubato = "=0.16.2"
screencapturekit = "=11.1.2"
serde = { version = "=1.0.229", features = ["derive"] }
serde_json = "=1.0.154"
tokio = { version = "*", features = ["time"] }
tracing = "=0.1.44"
tracing-subscriber = { version = "=0.3.23", features = ["env-filter"] }
