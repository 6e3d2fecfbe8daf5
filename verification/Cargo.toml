[package]
name = "lan_file_drop"
version = "0.1.0"
edition = "2021"
publish = false

[dependencies]
rocket = "=0.5.1"
local-ip-address = "=0.6.13"
qrrs = "=0.1.11"
qrcode = "*"
