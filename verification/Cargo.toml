[package]
name = "infinigit"
version = "0.1.0"
edition = "2021"
publish = false

[dependencies]
candid = "0.10"
hex = "0.4"
ic-vetkeys = "*"
rand = "0.8"
rpassword = "7"
serde = { version = "1", features = ["derive"] }
tempfile = "3"
