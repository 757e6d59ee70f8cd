[package]
name = "peppol_lookup"
version = "0.1.0"
edition = "2021"
publish = false

[dependencies]
md-5 = "*"
urlencoding = "*"
reqwest = { version = "*", default-features = false, features = ["blocking"] }
