[package]
name = "tiger"
version = "0.1.0"
edition = "2021"
publish = false

[dependencies]
md5 = "0.7"
rand = "0.8"
getopts = "0.2"
serde = { version = "1", features = ["derive"] }
serde_json = "1"
serde_yaml = "0.9"
bincode = "1"
mysql = "*"
rusoto_core = "*"
rusoto_credential = "*"
rusoto_s3 = "*"
tokio = { version = "1", features = ["rt"] }
