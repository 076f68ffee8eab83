[package]
name = "colorpicky"
version = "0.1.0"
edition = "2021"
publish = false

[dependencies]
defmt = "=1.2.0"
defmt-rtt = "=1.3.1"
embassy-time = "=0.5.1"
embedded-graphics = "=0.8.2"
embedded-hal = "=1.0.0"
heapless = "=0.8.0"
panic-probe = "=1.0.0"
