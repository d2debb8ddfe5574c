[package]
name = "ra4_hal"
version = "0.1.0"
edition = "2021"
publish = false

[dependencies]
cortex-m = "=0.7.10"
critical-section = "=1.2.0"
ra4m1-ctpac = "=0.2.3"
usb-device = "=0.3.2"
usbd-serial = "=0.2.2"
