[package]
name = "notext"
version = "0.1.0"
edition = "2021"
publish = false

[dependencies]
unicode-segmentation = "1"
async-std = "1"
zbus = "3"
