[package]
name = "image_sorter"
version = "0.1.0"
edition = "2021"
publish = false

[dependencies]
home = "0.5"

[dev-dependencies]
dotenvy = "0.15"
