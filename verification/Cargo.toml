[package]
name = "task_colors"
version = "0.1.0"
edition = "2021"
publish = false

[dependencies]
tui = { version = "0.19", default-features = false }
