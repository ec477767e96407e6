[package]
name = "oxidemd"
version = "0.1.0"
edition = "2021"
publish = false

[dependencies]
pulldown-cmark = { version = "=0.13.6", default-features = false, features = ["html"] }
syntect = { version = "=5.3.0", default-features = false, features = ["default-fancy"] }
mermaid-rs-renderer = "=0.3.1"
mathjax-svg-rs = "=0.4.0"
resvg = "*"
