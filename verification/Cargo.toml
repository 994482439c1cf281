[package]
name = "lora_ble_bridge"
version = "0.1.0"
edition = "2021"
publish = false

[dependencies]
heapless = "=0.8.0"
embassy-sync = "=0.8.0"
embassy-executor = "*"
embassy-futures = "*"
embassy-time = "*"
embassy-embedded-hal = "*"
embedded-hal-async = "*"
embedded-hal-bus = "*"
lora-phy = "*"
static_cell = "*"
log = "*"
bt-hci = "*"
trouble-host = "*"
esp-hal = "*"
esp-radio = "*"
esp-rtos = "*"
esp-alloc = "*"
esp-backtrace = "*"
esp-bootloader-esp-idf = "*"
esp-println = "*"
