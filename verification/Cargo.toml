[package]
name = "kernel_core"
version = "0.1.0"
edition = "2021"
publish = false

[dependencies]
pc-keyboard = "0.5"
spin = "0.5"
lazy_static = "1.4"
linked_list_allocator = "0.10"
bootloader = { version = "0.9", features = ["map_physical_memory"] }
