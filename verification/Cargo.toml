[package]
name = "jvm"
version = "0.1.0"
edition = "2021"
publish = false

[dependencies]
cesu8 = "*"
cesu8-str = "*"
dashmap = "*"
once_cell = "*"
parking_lot = "*"
zip = { version = "*", default-features = false, features = ["deflate"] }
