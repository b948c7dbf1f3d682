[package]
name = "pasillo"
version = "0.1.0"
edition = "2021"
publish = false

[dependencies]
ufmt = "*"
avr-device = { version = "*", features = ["atmega2560"] }
