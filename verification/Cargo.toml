[package]
name = "adminapi"
version = "0.1.0"
edition = "2021"
publish = false

[dependencies]
anyhow = "1"
hmac = "0.12"
log = "0.4"
reqwest = { version = "0.12", default-features = false, features = ["json"] }
serde = { version = "1", features = ["derive"] }
serde_json = "1"
sha1 = "0.10"
signature = "2"
ssh-agent-client-rs = "*"
ssh-encoding = { version = "0.2", features = ["base64"] }
ssh-key = { version = "0.6", features = ["crypto"] }
thiserror = "1"
tracing = "0.1"
