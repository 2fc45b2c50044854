[package]
name = "edge_captive"
version = "0.1.0"
edition = "2021"
publish = false

[dependencies]
edge-nal = "*"
log = "0.4"
