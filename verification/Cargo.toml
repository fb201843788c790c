[package]
name = "trayicon"
version = "0.1.0"
edition = "2021"
publish = false

[dependencies]
ico = "*"
zbus = "*"
serde = { version = "*", features = ["derive"] }
futures = "*"
