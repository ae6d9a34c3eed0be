[package]
name = "pbgui_messaging"
version = "0.1.0"
edition = "2021"
publish = false

[dependencies]
crossbeam-channel = "*"
crossbeam-utils = "*"
