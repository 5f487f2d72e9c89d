[package]
name = "blocky"
version = "0.1.0"
edition = "2021"
publish = false

[dependencies]
clap = "4"
mdbook = { version = "0.4", default-features = false }
pulldown-cmark = { version = "0.10", default-features = false }
pulldown-cmark-to-cmark = "13"
serde_json = "1"
