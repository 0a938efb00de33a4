[package]
name = "orgauth"
version = "0.1.0"
edition = "2021"
publish = false

[dependencies]
sha256 = "1"
uuid = { version = "1", features = ["v4"] }
rand = "0.8"
time = { version = "0.3", features = ["formatting"] }
lettre = { version = "0.11", default-features = false, features = ["smtp-transport", "builder"] }
serde = { version = "1", features = ["derive"] }
serde_json = "1"
