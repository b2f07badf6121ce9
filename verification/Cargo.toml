[package]
name = "s3_cli"
version = "0.1.0"
edition = "2021"
publish = false

[dependencies]
anyhow = "1"
aws-sdk-s3 = "1"
chrono = "0.4"
clap = { version = "4", features = ["derive"] }
inquire = "*"
serde = { version = "1", features = ["derive"] }
tabled = "*"
tokio = { version = "1", features = ["full"] }
toml = "*"
toml_edit = "*"
tree_magic = "*"
