[package]
name = "nrf_unifying"
version = "0.1.0"
edition = "2021"
publish = false

[dependencies]
aes = "0.8"
ctr = "0.9"
cortex-m = "*"
embassy-boot = "*"
embassy-boot-nrf = "*"
embassy-executor = "*"
embassy-futures = "*"
embassy-nrf = { version = "*", features = ["nrf52840", "time-driver-rtc1", "gpiote", "unstable-pac"] }
embassy-sync = "*"
embassy-time = "*"
embassy-usb = "*"
embedded-storage = "*"
nrf52840-hal = "*"
panic-reset = "*"
usb-device = "*"
usbd-serial = "*"
