[package]
name = "arklog"
version = "0.2.6"
edition = "2021"
publish = false

[dependencies]
regex = "1"
unicode-segmentation = "1"
unicode-width = "0.2"
ratatui = "0.29"
libc = "0.2"
arboard = { version = "3", default-features = false }
serde = { version = "1", features = ["derive"] }
