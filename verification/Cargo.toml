[package]
name = "wireguard_vanity"
version = "0.1.0"
edition = "2021"

[dependencies]
base64 = "*"
clap = "*"
rand = "*"
rayon = "*"
regex = "*"
x25519-dalek = "*"
