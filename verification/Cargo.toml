[package]
name = "voxmux"
version = "0.1.0"
edition = "2021"
publish = false

[dependencies]
toml = "*"
ringbuf = "0.4"
cpal = "0.15"
crossterm = "*"
ratatui = "*"
notify = "*"
anyhow = "1"
clap = { version = "4", features = ["derive"] }
serde = { version = "1", features = ["derive"] }
thiserror = "*"
tokio = { version = "1", features = ["rt-multi-thread", "macros", "sync", "time"] }
tracing = "0.1"
tracing-subscriber = { version = "0.3", features = ["env-filter", "fmt", "registry"] }
async-trait = "0.1"
