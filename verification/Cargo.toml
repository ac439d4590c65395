[package]
name = "gauchito_core"
version = "0.1.0"
edition = "2021"
publish = false

[dependencies]
ropey = { version = "=1.6.1", default-features = false }
unicode-segmentation = "=1.13.3"
