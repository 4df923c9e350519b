[package]
name = "ez_netflow"
version = "0.1.0"
edition = "2021"
publish = false

[dependencies]
rusqlite = { version = "*", features = ["bundled"] }
chrono = "*"
serde = { version = "*", features = ["derive"] }
serde_json = "*"
tabled = "*"
