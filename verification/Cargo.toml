[package]
name = "bevy_term_keys"
version = "0.1.0"
edition = "2021"
publish = false

[dependencies]
bevy = { version = "0.14", default-features = false }
crossterm = "0.28"
smol_str = "0.2"
