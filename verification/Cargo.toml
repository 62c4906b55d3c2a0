[package]
name = "wayland_protocol"
version = "0.1.0"
edition = "2021"
publish = false

[dependencies]
smallvec = "1"
wayland-sys = "0.31"
proc-macro2 = "1"
quote = "1"
futures-channel = "0.3"
log = "0.4"
