[package]
name = "zoom_lomax"
version = "0.1.0"
edition = "2021"
publish = false

[dependencies]
serde_json = "1"
chrono = "0.4"
chrono-tz = "0.10"
lettre = { version = "0.11", default-features = false, features = ["builder", "sendmail-transport"] }
reqwest = { version = "0.12", default-features = false, features = ["blocking"] }
jsonwebtoken = "9"
dirs = "5"
