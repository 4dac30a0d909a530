[package]
name = "lyred"
version = "0.1.0"
edition = "2021"
publish = false

[dependencies]
midly = "0.5"
rayon = "1"
rand = "0.9"
crossbeam = "0.8"
parking_lot = "0.12"
serde = { version = "1", features = ["derive"] }
ron = "0.8"
winapi = { version = "0.3", features = ["winuser"] }
