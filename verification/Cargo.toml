[package]
name = "armature_lambda"
version = "0.2.1"
edition = "2021"
publish = false

[dependencies]
async-trait = "0.1"
bytes = "1"
http = "1"
lambda_http = "*"
lambda_runtime = "*"
serde = "1"
serde_json = "1"
thiserror = "*"
tracing = "0.1"
tracing-subscriber = { version = "0.3", features = ["env-filter", "json"] }
