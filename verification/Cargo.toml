[package]
name = "p2p_client"
version = "0.1.0"
edition = "2021"
publish = false

[dependencies]
anyhow = "=1.0.104"
hex = "=0.4.3"
iroh = { version = "=1.3.0", default-features = false, features = ["tls-ring"] }
iroh-blobs = { version = "=0.103.1", default-features = false, features = ["fs-store"] }
n0-future = "=0.3.2"
rand = "=0.10.3"
rustls = { version = "=0.23.45", default-features = false, features = ["ring", "std"] }
tokio = { version = "=1.53.2", features = ["rt-multi-thread", "fs", "net", "sync", "time", "io-util"] }
walkdir = "=2.5.0"
