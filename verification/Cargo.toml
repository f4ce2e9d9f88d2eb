[package]
name = "bookie"
version = "0.1.0"
edition = "2021"
publish = false

[dependencies]
unicode-segmentation = "*"
uuid = { version = "*", features = ["v4"] }
serde = { version = "*", features = ["derive"] }
serde_json = "*"
ratatui = "*"
ratatui-image = "*"
image = "*"
crossterm = "*"
