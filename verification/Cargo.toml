[package]
name = "wpa_handshake"
version = "0.1.0"
edition = "2021"
publish = false

[dependencies]
chrono = "0.4"
libwifi = "*"
rand = "0.8"
