[package]
name = "chat"
version = "0.1.0"
edition = "2021"
publish = false

[dependencies]
byteorder = "1"
http-muncher = "0.2"
mio = "0.6"
rustc-serialize = "0.3"
sha1 = "0.2"
