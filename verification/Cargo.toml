[package]
name = "board_logic"
version = "0.1.0"
edition = "2021"
publish = false

[dependencies]
cortex-m-rt = "0.7"
critical-section = "1.1"
embedded-graphics = "0.8"
embedded-hal = "0.2"
esp-backtrace = "0.12"
esp-hal = "0.18"
esp-hal-smartled = "0.11"
esp-println = "0.10"
heapless = "0.8"
lsm303agr = "0.2"
microbit-v2 = "0.13"
nb = "1.1"
panic-rtt-target = "0.1"
rtt-target = "0.5"
smart-leds = "0.3"
ssd1306 = "0.8"
