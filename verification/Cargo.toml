[package]
name = "radius_proto"
version = "0.1.0"
edition = "2021"
publish = false

[dependencies]
md5 = "*"
clap = "*"
log = "*"
stderrlog = "*"
