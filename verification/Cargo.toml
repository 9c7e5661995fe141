[package]
name = "mailin"
version = "0.1.0"
edition = "2021"
publish = false

[dependencies]
base64 = "0.21"
bufstream = "*"
scoped_threadpool = "*"
rustls = "0.21"
rustls-pemfile = "*"
dnssector = "*"
resolv-conf = "*"
