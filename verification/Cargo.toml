[package]
name = "stalkermap"
version = "0.1.0"
edition = "2021"
publish = false

[dependencies]
rand = "=0.9.5"
tokio = { version = "=1.53.2", features = ["net", "rt", "rt-multi-thread", "sync", "time", "macros", "io-util"] }
tokio-stream = { version = "=0.1.19", features = ["sync"] }
tokio-util = "=0.7.19"
parking_lot = "=0.12.5"
async-trait = "=0.1.92"

[dev-dependencies]
serde_json = "=1.0.151"
