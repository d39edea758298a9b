[package]
name = "random_mac"
version = "0.1.0"
edition = "2021"
publish = false

[dependencies]
rand = "*"
clap = "*"
directories = "*"
libc = "*"
mac_address = "*"
reqwest = { version = "*", default-features = false, features = ["blocking"] }
