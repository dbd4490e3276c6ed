[package]
name = "screenruster"
version = "0.1.0"
edition = "2021"
publish = false

[dependencies]
toml = { version = "0.2", default-features = false }
rand = "0.4"
libc = "0.2"
clap = "2"
xdg = "2"
x11 = { version = "2", features = ["xlib", "xrandr", "dpms"] }
