[package]
name = "cacau"
version = "0.1.0"
edition = "2021"
publish = false

[dependencies]
fs-err = "2"
logos = "0.12"
lalrpop-util = "0.19"
