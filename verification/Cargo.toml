[package]
name = "gdrive"
version = "0.1.0"
edition = "2021"
publish = false

[dependencies]
google-drive3 = "*"
hyper = "*"
hyper-rustls = "*"
yup-oauth2 = "*"
tokio = { version = "*", features = ["rt", "time", "net"] }
