[package]
name = "tcpkali2"
version = "0.1.0"
edition = "2021"
publish = false

[dependencies]
hdrhistogram = { version = "7", default-features = false }
crossbeam-queue = "0.3"
bytes = "1"
clap = "4"
futures = "0.3"
parking_lot = "0.12"
tokio = { version = "1", features = ["full"] }
tokio-tungstenite = "*"
tungstenite = "*"
