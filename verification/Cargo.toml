[package]
name = "esp32_drawer"
version = "0.1.0"
edition = "2021"
publish = false

[dependencies]
serde = "1.0"
serde-json-core = "0.6"
embassy-executor = "0.6"
embassy-net = { version = "0.4", features = ["tcp", "dhcpv4", "medium-ethernet", "proto-ipv4"] }
embassy-sync = "0.6"
embassy-time = "0.3"
embedded-graphics = "0.8"
embedded-hal-bus = "0.2"
embedded-io-async = "0.6"
esp-alloc = "0.5"
esp-backtrace = "0.14"
esp-hal = "0.22"
esp-hal-embassy = "0.5"
esp-println = "0.12"
esp-wifi = "0.11"
st7735-lcd = "0.10"
static_cell = "2.1"
