[package]
name = "docsearch"
version = "0.1.0"
edition = "2021"
publish = false

[dependencies]
foldhash = "0.1"
hashbrown = "0.15"
rayon = "1"
rust-stemmers = "1.2"
serde_json = "1"
tiny_http = "0.12"
tl = "0.7"
xml-rs = "0.8"
