[package]
name = "monkey"
version = "0.1.0"
edition = "2021"
publish = false

[dependencies]
ctrlc = "3"
rustyline = "*"
unicode-segmentation = "1"
