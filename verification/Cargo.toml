[package]
name = "motionlens_core"
version = "0.1.0"
edition = "2021"
publish = false

[dependencies]
uuid = { version = "1", features = ["v4"] }
serde_json = "1"
serde = { version = "1", features = ["derive"] }
schemars = "1"
chromiumoxide = "0.9"
tokio = { version = "1", features = ["full"] }
futures = "0.3"
async-trait = "0.1"
image = { version = "0.25", default-features = false, features = ["png", "jpeg", "gif"] }
png = "0.17"
base64 = "0.22"
dirs = "*"
tempfile = "3"
clap = { version = "4", features = ["derive"] }
anyhow = "1"
rmcp = { version = "*", features = ["server", "transport-io", "macros"] }
tracing = "0.1"
tracing-subscriber = { version = "0.3", features = ["env-filter"] }
thiserror = "*"
