[package]
name = "gdoc_sync"
version = "0.1.0"
edition = "2021"
publish = false

[dependencies]
percent-encoding = "*"
rand = "*"
reqwest = { version = "*", default-features = false, features = ["blocking"] }
