[package]
name = "itb_io"
version = "0.1.0"
edition = "2021"
publish = false

[dependencies]
path-absolutize = "*"
pathdiff = "*"
walkdir = "*"
directories = "*"

[dev-dependencies]
tempfile = "*"
