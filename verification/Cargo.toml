[package]
name = "minad"
version = "0.1.0"
edition = "2021"
publish = false

[dependencies]
libc = "=0.2.191"
serde = { version = "=1.0.229", features = ["derive"] }
serde_json = "=1.0.154"
tokio = { version = "=1.54.1", features = ["rt-multi-thread", "net", "io-util", "fs", "sync", "time", "macros"] }
toml = "=1.1.8"
tree-sitter = "=0.27.1"

[dev-dependencies]
tree-sitter-rust = "*"
