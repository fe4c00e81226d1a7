[package]
name = "opt3001"
version = "0.1.0"
edition = "2021"
publish = false

[dependencies]
cortex-m = "0.7"
defmt = "0.3"
defmt-rtt = "0.4"
device-driver = "1"
panic-probe = "0.3"
rtic = { version = "2", features = ["thumbv6-backend"] }
stm32l0 = { version = "0.15", features = ["stm32l0x0"] }
