[package]
name = "embedded_alarm_clock"
version = "0.1.0"
edition = "2021"
publish = false

[dependencies]
crc = "*"
ds323x = "*"
heapless = "*"
log = "*"
embedded-graphics = "*"
embedded-hal-bus = "*"
epd-waveshare = "*"
u8g2-fonts = "*"
embassy-time = "*"
embassy-executor = "*"
esp-hal = "*"
esp-backtrace = "*"
esp-bootloader-esp-idf = "*"
esp-println = "*"
esp-rtos = "*"
