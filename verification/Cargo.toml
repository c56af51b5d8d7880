[package]
name = "ws2812_timer_delay"
version = "0.1.0"
edition = "2021"
publish = false

[dependencies]
embedded-hal = "0.2"
nb = "1"
smart-leds-trait = "0.2"
