[package]
name = "opensprig-rs"
version = "0.1.0"
edition = "2021"
publish = false

[dependencies]
embedded-sdmmc = "=0.10.0"
embedded-hal = "=1.0.0"
embedded-hal-bus = "=0.3.0"
embassy-rp = { version = "=0.10.0", features = ["rp2040"] }
embassy-sync = { version = "=0.8.0", features = ["std"] }
embassy-time = "=0.5.1"
embassy-futures = "=0.1.2"
micromath = "=2.1.0"
atomic_float = "=1.1.0"
static_cell = "=2.1.1"
cortex-m = "=0.7.10"
defmt = "=1.2.0"
