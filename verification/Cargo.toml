[package]
name = "gadget_core"
version = "0.1.0"
edition = "2021"
publish = false

[dependencies]
anyhow = "1"
log = "0.4"
embedded-graphics = "0.8"
embedded-hal = "1"
embedded-hal-async = "1"
futures-lite = "2"
ssd1306 = "*"
lis3dh-async = "*"
embedded-svc = "*"
esp-idf-hal = "*"
esp-idf-svc = "*"
