[package]
name = "pico_usb_storage"
version = "0.1.0"
edition = "2021"
publish = false

[dependencies]
embassy-usb = { version = "=0.6.0", default-features = false }
usb-device = "=0.3.2"
rp-pico = "=0.9.0"
cortex-m-rt = "=0.7.7"
defmt = "=1.2.0"
defmt-rtt = "=1.3.1"
panic-probe = { version = "=1.0.0", features = ["print-defmt"] }
