[package]
name = "cvm_gateway"
version = "0.1.0"
edition = "2021"
publish = false

[dependencies]
aes-gcm = { version = "0.10", default-features = false, features = ["aes", "alloc"] }
aes = "0.8"
linked_list_allocator = "0.10"
