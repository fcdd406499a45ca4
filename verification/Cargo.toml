[package]
name = "ada_gps"
version = "0.1.0"
edition = "2021"
publish = false

[dependencies]
lexical-core = { version = "0.8", default-features = false, features = ["parse-integers", "write-integers", "power-of-two"] }
hex = "0.4"
time = { version = "0.3", default-features = false }
bbqueue = "0.5"
embedded-hal = "0.2"
nb = "1"
anyhow = "1"
