[package]
name = "mask"
version = "0.0.1"
edition = "2021"
publish = false

[dependencies]
bincode = "1"
blake2 = "0.10"
clap = "2"
codemap = "0.1"
gc = "*"
gc_derive = "*"
ordered-float = "4"
serde = { version = "1", features = ["derive"] }
serde_derive = "1"
serde_yaml = "0.9"
