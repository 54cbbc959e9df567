[package]
name = "record_screen"
version = "0.1.0"
edition = "2021"
publish = false

[dependencies]
clap = { version = "*", features = ["derive"] }
hotkey = "*"
quest = "*"
scrap = "*"
vpx-encode = "*"
webm = "*"
