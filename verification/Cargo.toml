[package]
name = "moving-least-squares-image"
version = "0.1.0"
edition = "2021"
publish = false

[dependencies]
image = { version = "*", default-features = false, features = ["jpeg", "png"] }
rayon = "*"
show-image = { version = "*", features = ["image"] }
