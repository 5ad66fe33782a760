[package]
name = "yellowstone-grpc-geyser"
version = "0.1.0"
edition = "2021"
publish = false

[dependencies]
affinity = "0.1"
agave-geyser-plugin-interface = "2.3"
anyhow = "1"
clap = { version = "4", features = ["derive"] }
crossbeam-channel = "0.5"
hostname = "0.4"
http = "1"
http-body-util = "0.1"
humantime-serde = "1"
hyper = "1"
hyper-util = { version = "0.1", features = ["server-auto", "tokio"] }
lazy_static = "1"
log = "0.4"
prometheus = "0.14"
serde = { version = "1", features = ["derive"] }
serde_json = "1"
solana-clock = "2"
solana-logger = "2"
tokio = { version = "1", features = ["rt-multi-thread", "macros", "net", "sync", "time"] }
tonic = { version = "0.12", default-features = false, features = ["codegen", "gzip", "prost", "zstd"] }
