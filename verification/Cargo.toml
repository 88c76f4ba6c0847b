[package]
name = "lute"
version = "0.1.0"
edition = "2021"
publish = false

[dependencies]
chrono = "0.4"
unidecode = "0.3"
sha2 = "0.10"
serde = { version = "1", features = ["derive"] }
serde_json = "1"
data-encoding = "2"
