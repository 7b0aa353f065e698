[package]
name = "site"
version = "0.1.0"
edition = "2021"
publish = false

[dependencies]
pulldown-cmark = "*"
toml = "*"
feed-rs = "*"
url = "*"
ureq = "*"
