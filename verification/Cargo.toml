[package]
name = "unicode_display_width"
version = "0.3.0"
edition = "2021"
publish = false

[dependencies]
unicode-segmentation = "=1.10.1"
