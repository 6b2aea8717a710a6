[package]
name = "gjio"
version = "0.1.3"
edition = "2021"
publish = false

[dependencies]
gj = "0.2"
time = "0.1"
nix = { version = "0.29", features = ["socket", "net", "fs", "event", "uio"] }
net2 = "0.2"
miow = "0.3"
