[package]
name = "n_player"
version = "0.1.0"
edition = "2021"
publish = false

[dependencies]
infer = "*"
sys-locale = "*"
