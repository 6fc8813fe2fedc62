[package]
name = "moon_actions"
version = "0.1.0"
edition = "2021"
publish = false

[dependencies]
rustc-hash = "=1.1.0"
serde = { version = "=1.0.229", features = ["derive"] }
serde_json = "=1.0.154"
clap = { version = "=4.6.7", features = ["derive"] }
thiserror = "=1.0.69"
console = "=0.15.11"
log = "=0.4.35"
tokio = { version = "=1.54.1", features = ["sync", "rt", "macros"] }
async-trait = "=0.1.92"
wax = "0.5"
