[package]
name = "batch_run"
version = "0.1.0"
edition = "2021"
publish = false

[dependencies]
glob = "0.3"
rand = "0.8"
ron = "0.8"
serde = { version = "1", features = ["derive"] }
termcolor = "1"
thiserror = "1"
