[package]
name = "priklady"
version = "0.1.0"
edition = "2021"
publish = false

[dependencies]
macroquad = "0.4"
ratatui = "0.29"
crossterm = "0.28"
image = { version = "0.25", default-features = false, features = ["png"] }
tokio = { version = "1", features = ["rt-multi-thread", "macros", "time"] }
