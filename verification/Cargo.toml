[package]
name = "lambda_http_wrapper"
version = "0.1.0"
edition = "2021"
publish = false

[dependencies]
lambda_http = "*"
lambda_runtime = "*"
serde = { version = "*", features = ["derive"] }
serde_json = "*"
tokio = { version = "*", features = ["macros", "rt"] }
once_cell = "*"
