[package]
name = "kernel_core"
version = "0.1.0"
edition = "2021"
publish = false

[dependencies]
bootloader = { version = "=0.9.35", features = ["map_physical_memory"] }
conquer-once = "=0.4.0"
crossbeam-queue = "=0.3.14"
futures-util = "=0.3.34"
lazy_static = "=1.5.1"
pc-keyboard = "=0.7.0"
spin = "=0.12.3"
vga = "=0.2.9"
x86_64 = { version = "=0.15.5", default-features = false, features = ["instructions"] }
