[package]
name = "zappy"
version = "0.1.0"
edition = "2021"
publish = false

[dependencies]
embassy-executor = "=0.9.1"
embassy-futures = "=0.1.2"
embassy-net = { version = "=0.8.0", features = ["tcp", "dns", "dhcpv4", "medium-ethernet"] }
embassy-sync = "=0.7.2"
embassy-time = { version = "=0.5.1", features = ["tick-hz-1_000_000"] }
embedded-svc = "=0.29.0"
embuild = { version = "=0.33.7", features = ["espidf"] }
esp-alloc = "=0.9.0"
esp-backtrace = { version = "=0.18.1", features = ["esp32c6", "panic-handler", "println"] }
esp-bootloader-esp-idf = { version = "=0.4.0", features = ["esp32c6"] }
esp-hal = { version = "=1.0.0", features = ["esp32c6", "unstable"] }
esp-hal-smartled = { version = "=0.17.0", features = ["esp32c6"] }
esp-idf-svc = "=0.52.1"
esp-println = { version = "=0.16.1", features = ["esp32c6", "log-04", "timestamp"] }
esp-radio = { version = "=0.17.0", features = ["esp32c6", "wifi", "unstable"] }
esp-rtos = { version = "=0.2.0", features = ["esp32c6", "embassy", "esp-radio"] }
log = "0.4"
reqwless = { version = "=0.14.0", default-features = false }
rgb = "=0.8.53"
rust-mqtt = "=0.5.1"
smart-leds-trait = "=0.3.2"
static_cell = "=2.1.1"
ws2812-esp32-rmt-driver = "=0.14.0"
