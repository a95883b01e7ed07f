[package]
name = "audiomirror"
version = "0.1.0"
edition = "2021"
publish = false

[dependencies]
cpal = "*"
crossbeam-queue = "*"
parking_lot = "*"
rtrb = "*"
rubato = "*"
serde = { version = "1", features = ["derive"] }
serde_json = "1"
