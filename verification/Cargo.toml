[package]
name = "lp_tetris"
version = "0.1.0"
edition = "2021"
publish = false

[dependencies]
array2d = "0.2"
rand = "0.7"
midir = "*"
multiinput = "*"
