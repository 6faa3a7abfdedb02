[package]
name = "lanta"
version = "0.1.0"
edition = "2021"
publish = false

[dependencies]
env_logger = "*"
libc = "0.2"
log = "0.4"
x11 = { version = "2", features = ["xlib"] }
