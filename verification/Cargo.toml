[package]
name = "netsync"
version = "0.1.0"
edition = "2021"
publish = false

[dependencies]
futures = "=0.3.34"
log = "0.4"
tokio = { version = "=1.54.1", features = ["rt", "rt-multi-thread", "time", "macros"] }
warp = { version = "=0.3.7", features = ["tls"] }
webrtc-unreliable = "=0.5.3"
