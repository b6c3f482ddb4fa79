[package]
name = "ata_pio"
version = "0.1.0"
edition = "2021"
publish = false

[dependencies]
x86_64 = { version = "0.15", default-features = false, features = ["instructions"] }
