[package]
name = "roto"
version = "0.1.0"
edition = "2021"
publish = false

[dependencies]
ariadne = "0.5"
inetnum = "0.1"
