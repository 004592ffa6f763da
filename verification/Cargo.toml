[package]
name = "rustos"
version = "0.1.0"
edition = "2021"
publish = false

[dependencies]
bootloader_api = "*"
spin = "*"
x86_64 = { version = "*", default-features = false, features = ["instructions"] }
pic8259 = "*"
linked_list_allocator = "*"
