[package]
name = "concertina"
version = "0.1.0"
edition = "2021"
publish = false

[dependencies]
circular-buffer = "=1.2.1"
embedded-io = "=0.7.1"
embedded-io-adapters = { version = "=0.7.0", features = ["std"] }
embassy-boot = "=0.7.0"
embedded-storage-async = "=0.4.2"
embassy-futures = "=0.1.2"
embassy-sync = "=0.8.0"
embassy-time = "=0.5.1"
embassy-usb = "*"
micromath = "=2.1.0"
cortex-m = "=0.7.10"
static_cell = "=2.1.1"
