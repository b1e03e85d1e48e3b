[package]
name = "leafboot"
version = "0.1.0"
edition = "2021"
publish = false

[dependencies]
uefi = { version = "=0.41.0", features = ["alloc"] }
acpi = { version = "=5.2.0", default-features = false }
