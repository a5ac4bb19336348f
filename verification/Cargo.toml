[package]
name = "mai"
version = "0.1.0"
edition = "2021"
publish = false

[dependencies]
mio = "0.5"
slab = "0.1"
lifeguard = "*"
log = "0.3"
