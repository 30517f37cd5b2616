[package]
name = "edgecache"
version = "0.1.0"
edition = "2021"
publish = false

[dependencies]
openssl = "=0.10.81"
md5 = "=0.8.1"
hex = "=0.4.3"
mime = "=0.3.17"
actix-web = { version = "=4.15.0", features = ["openssl"] }
