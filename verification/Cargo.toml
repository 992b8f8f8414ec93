[package]
name = "you_my_sql"
version = "0.1.0"
edition = "2021"
publish = false

[dependencies]
mysql = "*"
chrono = "*"
serde = { version = "*", features = ["derive"] }
serde_json = "*"
toml = "*"
dirs = "*"
