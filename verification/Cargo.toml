[package]
name = "ili9486"
version = "0.1.0"
edition = "2021"
publish = false

[dependencies]
display-interface = "=0.5.0"
embedded-graphics = "=0.6.2"
embedded-hal = { version = "=0.2.7", features = ["unproven"] }
