[package]
name = "tixml2svd"
version = "0.2.0"
edition = "2021"
publish = false

[dependencies]
xml-rs = "*"
clap = "*"
unicode-bom = "*"
