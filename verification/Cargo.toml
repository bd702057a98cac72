[package]
name = "packfile_sync"
version = "0.1.0"
edition = "2021"
publish = false

[dependencies]
eyre = "0.6"
futures = "0.3"
thiserror = "2"
tracing = "0.1"
