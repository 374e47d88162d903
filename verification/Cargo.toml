[package]
name = "moros_core"
version = "0.1.0"
edition = "2021"
publish = false

[dependencies]
bootloader = { version = "=0.9.35", features = ["map_physical_memory"] }
x86_64 = { version = "=0.15.5", default-features = false, features = ["instructions"] }
virtio-drivers = "=0.13.0"
spin = "=0.12.3"
lazy_static = "=1.5.1"
bit_field = "=0.10.3"
