[package]
name = "hf2"
version = "0.1.0"
edition = "2021"
publish = false

[dependencies]
crc-any = "*"
goblin = "*"
hidapi = "*"
structopt = "*"
