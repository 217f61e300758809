[package]
name = "selected_text"
version = "0.1.0"
edition = "2021"
publish = false

[dependencies]
lru = "*"
tokio = { version = "1", features = ["rt", "sync"] }
parking_lot = "*"
accessibility-ng = "*"
accessibility-sys-ng = "*"
active-win-pos-rs = "*"
core-foundation = "*"
