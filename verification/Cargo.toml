[package]
name = "datex_weather"
version = "0.1.0"
edition = "2021"
publish = false

[dependencies]
quick-xml = "0.22"
chrono = "0.4"
mysql = "16"
reqwest = "0.9"
