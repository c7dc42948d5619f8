[package]
name = "tramcast"
version = "0.1.0"
edition = "2021"
publish = false

[dependencies]
chrono = { version = "0.4", features = ["serde"] }
chrono-tz = "*"
embedded-graphics = "0.8"
esp-idf-svc = "0.47"
esp-ota = "*"
humantime = "2"
log = "0.4"
serde = { version = "1", features = ["derive"] }
serde_json = "1"
ssd1306 = "*"
