[package]
name = "tc2_frames"
version = "0.1.0"
edition = "2021"
publish = false

[dependencies]
colorous = "*"
font-kit = "*"
local-ip-address = "*"
mdns-sd = "*"
minifb = "*"
raqote = "*"
