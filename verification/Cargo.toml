[package]
name = "short_flight"
version = "0.1.0"
edition = "2021"
publish = false

[dependencies]
ldtk_rust = "0.6"
image = "0.25"
serde = { version = "1", features = ["derive"] }
serde_json = "1"
ron = "0.8"
log = "0.4"
thiserror = "2"
bitflags = "2"
enum-iterator = "2"
