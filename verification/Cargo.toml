[package]
name = "batch_uploader"
version = "0.1.0"
edition = "2021"
publish = false

[dependencies]
anyhow = "1"
aws-credential-types = "*"
aws-sdk-s3 = "*"
bytes = "1"
clap = { version = "4", features = ["derive", "env"] }
csv = "1"
env_logger = { version = "0.11", default-features = false }
log = "0.4"
mongodb = "*"
qdrant-client = "*"
serde_json = "1"
tokio = { version = "1", features = ["macros", "rt"] }
url = "2"
uuid = "1"
