[package]
name = "air_monitor"
version = "0.1.17"
edition = "2021"
publish = false

[dependencies]
percent-encoding = "2"
log = "0.4"
heapless = "0.8"
embedded-graphics = "0.8"
display-interface = "0.5"
display-interface-spi = "0.5"
mipidsi = "0.8"
embedded-svc = "0.28"
esp-idf-hal = "0.45"
esp-idf-svc = "0.51"
