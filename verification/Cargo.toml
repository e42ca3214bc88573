[package]
name = "aurae_cells"
version = "0.1.0"
edition = "2021"
publish = false

[dependencies]
cgroups-rs = "0.3"
thiserror = "1"
tokio = { version = "1", features = ["rt", "rt-multi-thread", "sync"] }
