[package]
name = "secure_token"
version = "0.1.0"
edition = "2021"
publish = false

[dependencies]
rand = "0.8"
sha2 = "0.10"
diesel = { version = "2", default-features = false, features = ["postgres_backend"] }
conduit = "*"
conduit-mime-types = "*"
time = "0.1"
