[package]
name = "vibekeys"
version = "0.1.0"
edition = "2021"
publish = false

[dependencies]
anyhow = "=1.0.104"
embedded-graphics = "=0.8.2"
embedded-svc = "0.28"
esp-idf-svc = "=0.51.0"
esp32-nimble = "=0.11.1"
futures-util = "=0.3.34"
log = "=0.4.34"
