[package]
name = "remote_uci"
version = "0.1.0"
edition = "2021"
publish = false

[dependencies]
memchr = "=2.8.3"
shakmaty = "=0.26.0"
thiserror = "=1.0.69"
