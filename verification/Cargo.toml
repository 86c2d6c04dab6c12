[package]
name = "bolt_load"
version = "0.1.0"
edition = "2021"
publish = false

[dependencies]
anyhow = "=1.0.104"
async-channel = "=2.5.0"
async-notify = "=0.3.4"
async-once-cell = "=0.5.4"
async-ringbuf = "=0.4.0"
async-stream = "=0.3.6"
async-trait = "=0.1.92"
async-waitgroup = "=0.1.3"
axum = "=0.8.9"
axum-extra = { version = "=0.12.6", features = ["typed-header"] }
axum-range = "=1.0.0"
bitvec = "=1.1.1"
blake3 = "=1.8.7"
bytes = "=1.12.1"
compio = { version = "=0.19.2", features = ["fs", "bytes"] }
event-listener = "=5.4.2"
fs-err = "=3.3.2"
futures = "=0.3.34"
futures-concurrency = "=7.7.1"
governor = "=0.10.4"
oneshot = { version = "=0.2.1", features = ["async"] }
portpicker = "=0.1.1"
rand = "=0.10.3"
ranges = "=0.4.0"
reqwest = { version = "=0.13.5", default-features = false, features = ["stream"] }
smol = "=2.0.2"
smol-cancellation-token = "=0.1.1"
tempfile = "=3.27.0"
tokio = { version = "=1.54.1", features = ["rt-multi-thread", "time", "net", "fs", "io-util", "sync"] }
tokio-util = { version = "=0.7.20", features = ["io"] }
