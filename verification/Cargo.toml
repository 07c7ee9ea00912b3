[package]
name = "neuclidio"
version = "0.1.0"
edition = "2021"
publish = false

[dependencies]
vulkanalia = "=0.35.0"
itertools = "=0.15.0"
obj-rs = { version = "*", default-features = false }
glam = "=0.34.2"
log = "=0.4.35"
