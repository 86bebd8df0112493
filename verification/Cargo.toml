[package]
name = "texture_extract"
version = "0.1.0"
edition = "2021"
publish = false

[dependencies]
gctex = { version = "=0.3.12", default-features = false }
texpresso = "=2.0.2"
image = { version = "=0.25.10", default-features = false, features = ["png"] }
clap = { version = "=4.6.7", features = ["derive"] }
