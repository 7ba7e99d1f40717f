[package]
name = "dav"
version = "0.1.0"
edition = "2021"
publish = false

[dependencies]
calcard = "*"
hashify = "*"
hyper = "1"
rkyv = "*"
