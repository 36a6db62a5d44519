[package]
name = "lattice"
version = "0.1.0"
edition = "2021"
publish = false

[dependencies]
blake3 = "=1.8.7"
uuid = { version = "=1.29.0", features = ["v4", "v7"] }
ropey = "=1.6.1"
sysinfo = "=0.40.1"
dirs = "=7.0.0"
serde = { version = "=1.0.229", features = ["derive"] }
serde_json = "=1.0.154"
petgraph = "*"
tokio = { version = "1", features = ["rt-multi-thread", "macros", "sync", "time", "net", "io-util"] }
axum = "*"
