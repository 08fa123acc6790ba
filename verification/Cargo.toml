[package]
name = "dirhash"
version = "0.1.0"
edition = "2021"
publish = false

[dependencies]
clap = "2"
digest = "0.10"
indicatif = "0.17"
md-5 = "0.10"
sha1 = "0.10"
sha2 = "0.10"
