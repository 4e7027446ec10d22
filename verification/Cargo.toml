[package]
name = "xbee"
version = "0.1.0"
edition = "2021"
publish = false

[dependencies]
arraydeque = "=0.4.5"
arrayvec = "=0.4.12"
embedded-hal = { version = "=0.2.7", features = ["unproven"] }
nb = "=0.1.3"
