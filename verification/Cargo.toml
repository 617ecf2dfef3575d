[package]
name = "brp_tool"
version = "0.1.0"
edition = "2021"
publish = false

[dependencies]
serde_json = "*"
rand = "*"
serde = { version = "*", features = ["derive"] }
anyhow = "*"
tokio = { version = "*", features = ["rt-multi-thread", "macros", "process", "fs", "io-util", "time", "signal", "net"] }
tokio-stream = "*"
bytes = "*"
reqwest = { version = "*", default-features = false, features = ["json", "stream"] }
clap = { version = "*", features = ["derive"] }
sysinfo = "*"
cargo_metadata = "*"
