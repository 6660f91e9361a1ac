[package]
name = "ggbasm"
version = "0.3.0"
edition = "2021"
publish = false

[dependencies]
anyhow = "1"
byteorder = "1"
image = { version = "*", default-features = false, features = ["png"] }
structopt = "0.3"
thiserror = "1"
