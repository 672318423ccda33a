[package]
name = "flexhlssink"
version = "0.1.0"
edition = "2021"
publish = false

[dependencies]
gio = "=0.14.8"
glib = "=0.14.8"
gstreamer = "=0.17.4"
once_cell = "=1.21.4"

[dev-dependencies]
m3u8-rs = "=1.0.8"
