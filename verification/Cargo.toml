[package]
name = "lan_relay"
version = "0.1.0"
edition = "2021"
publish = false

[dependencies]
actix = "=0.13.5"
actix-files = "0.6"
actix-web = "=4.18.1"
actix-web-actors = "=4.3.1"
futures = "=0.3.34"
jni = "0.19"
log = "=0.4.34"
rand = "=0.8.8"
serde = { version = "=1.0.229", features = ["derive"] }
serde_json = "=1.0.154"
tokio = { version = "=1.54.1", features = ["rt-multi-thread", "time", "net", "io-util", "process", "macros"] }
uuid = { version = "=1.29.0", features = ["v4"] }
