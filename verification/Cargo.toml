[package]
name = "image_vault"
version = "0.1.0"
edition = "2021"
publish = false

[dependencies]
base64 = "*"
imagesize = "*"
nanoid = "*"
tree_magic = "*"
