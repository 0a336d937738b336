[package]
name = "zed_core"
version = "0.1.0"
edition = "2021"
publish = false

[dependencies]
agent-client-protocol = "*"
anyhow = "1"
base64 = "0.22"
futures = "0.3"
gh-workflow = "*"
indexmap = "2"
log = "0.4"
parking_lot = "0.12"
rand = "0.9"
serde = { version = "1", features = ["derive"] }
serde_json = "1"
sha2 = "0.10"
smol = "2"
url = "2"
