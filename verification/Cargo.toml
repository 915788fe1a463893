[package]
name = "iot_sensors"
version = "0.1.0"
edition = "2021"
publish = false

[dependencies]
heapless = "=0.8.0"
embassy-executor = "*"
embassy-net = "*"
embassy-sync = "*"
embassy-time = "*"
embedded-dht-rs = "*"
embedded-io-async = "*"
esp-bootloader-esp-idf = "*"
esp-hal = "*"
esp-println = "*"
esp-radio = "*"
nb = "*"
static_cell = "*"
