[package]
name = "ssh-serial-bridge"
version = "0.1.1"
edition = "2021"
publish = false

[dependencies]
anyhow = "1"
chrono = "0.4"
display-interface-spi = "0.5"
embedded-graphics = "0.8.1"
embedded-svc = "0.28"
esp-idf-hal = "0.45.2"
esp-idf-svc = "0.51"
esp-idf-sys = "0.36"
heapless = "0.8"
log = "0.4"
mipidsi = "0.8.0"
ssd1306 = "*"
toml-cfg = "*"
