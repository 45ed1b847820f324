[package]
name = "expectrl"
version = "0.7.0"
edition = "2021"
publish = false

[dependencies]
regex = "=1.13.1"
ptyprocess = "=0.4.1"
nix = "=0.26.4"
