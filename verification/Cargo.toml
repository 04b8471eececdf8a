[package]
name = "dock"
version = "0.1.0"
edition = "2021"
publish = false

[dependencies]
serde_json = "1"
serde = { version = "1", features = ["derive"] }
thiserror = "*"
tokio = { version = "1", features = ["rt-multi-thread", "net", "io-util", "time", "sync", "macros"] }
log = "0.4"
env_logger = "*"
toml = "*"
niri-ipc = "*"
relm4 = "*"
gtk4 = "*"
gtk4-layer-shell = "*"
