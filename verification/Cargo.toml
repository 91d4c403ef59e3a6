[package]
name = "uxn"
version = "0.1.0"
edition = "2021"
publish = false

[dependencies]
minifb = "*"
winnow = "0.6"
