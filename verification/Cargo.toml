[package]
name = "screen_ruler"
version = "0.1.0"
edition = "2021"
publish = false

[dependencies]
png = "0.18"
arboard = "3"
xcap = "*"
wayland-client = "0.31"
wayland-protocols-wlr = { version = "0.3", features = ["client"] }
