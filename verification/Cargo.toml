[package]
name = "tsugumi"
version = "0.1.0"
edition = "2021"
publish = false

[dependencies]
chrono = "*"
mime_guess = "*"
zip = "*"
serde = { version = "*", features = ["derive"] }
serde_yaml = "*"
clap = { version = "*", features = ["derive"] }
uuid = { version = "*", features = ["v4"] }
anyhow = "*"
image = "*"
