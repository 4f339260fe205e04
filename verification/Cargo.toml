[package]
name = "serial_write"
version = "0.1.0"
edition = "2021"
publish = false

[dependencies]
numtoa = "0.2"
usb-device = "0.2"
usbd-serial = "0.1"
