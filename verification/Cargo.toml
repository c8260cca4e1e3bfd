[package]
name = "tinyraycaster"
version = "0.1.0"
edition = "2021"
publish = false

[dependencies]
eyre = "0.6"
itertools = "0.14"
macroquad = { version = "0.4", default-features = false }
rustc-hash = "2"
spin_sleep = "1"
