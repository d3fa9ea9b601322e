[package]
name = "apicula"
version = "0.1.0"
edition = "2021"
publish = false

[dependencies]
json = "0.12"
log = "0.4"
png = "*"
wild = "2"
