[package]
name = "yorool_gui"
version = "0.1.0"
edition = "2021"
publish = false

[dependencies]
async-std = "1"
ggez = "0.5"
indexmap = "1"
