[package]
name = "database"
version = "0.1.0"
edition = "2021"
publish = false

[dependencies]
json = "0.12"
chrono = "0.4"
sqlite = "*"
paho-mqtt = "*"
lazy_static = "1"
