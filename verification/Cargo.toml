[package]
name = "account_repo"
version = "0.1.0"
edition = "2021"
publish = false

[dependencies]
bcrypt = "*"
chrono = "*"
diesel = "*"
serde = { version = "*", features = ["derive"] }
