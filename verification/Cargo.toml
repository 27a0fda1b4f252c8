[package]
name = "phaselock"
version = "0.1.0"
edition = "2021"
publish = false

[dependencies]
uuid = { version = "=1.29.0", features = ["v4"] }
sha2 = "=0.10.9"
symphonia = { version = "=0.5.5", default-features = false, features = ["mp3"] }
serde = { version = "=1.0.229", features = ["derive"] }
bincode = "=1.3.3"
tokio = { version = "=1.54.1", features = ["io-util", "rt", "rt-multi-thread", "macros", "net", "time", "sync"] }
chrono = "=0.4.45"
log = "=0.4.35"
parking_lot = "=0.12.5"
mdns-sd = "0.11"
dirs = "5"
