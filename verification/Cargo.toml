[package]
name = "gorillas"
version = "0.1.0"
edition = "2021"
publish = false

[dependencies]
rand = "0.7"
flate2 = "1"
bincode = "1"
serde = { version = "1", features = ["derive"] }
quicksilver = { version = "0.3", default-features = false, features = ["fonts"] }
stdweb = "0.4"
