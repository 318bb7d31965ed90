[package]
name = "calc_os"
version = "0.1.0"
edition = "2021"
publish = false

[dependencies]
arrayvec = { version = "0.7", default-features = false }
embedded-graphics = "0.8"
epd-waveshare = "0.6"
rand = "0.8"
embedded-hal = "1.0"
embedded-hal-bus = "*"
cortex-m = "0.7"
rp-pico = "*"
embedded-graphics-simulator = "*"
sdl2 = "*"
tracing = "0.1"
tracing-subscriber = "0.3"
