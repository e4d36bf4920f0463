[package]
name = "jurisdesk_secrets"
version = "0.1.0"
edition = "2021"
publish = false

[dependencies]
keyring = { version = "*", default-features = false, features = ["linux-native"] }
log = "*"
