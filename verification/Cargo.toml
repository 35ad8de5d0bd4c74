[package]
name = "gm_zip"
version = "0.1.0"
edition = "2021"
publish = false

[dependencies]
glob = "=0.3.4"
gmod = { version = "=16.0.2", default-features = false }
zip = { version = "=0.6.6", default-features = false, features = ["deflate", "time"] }
