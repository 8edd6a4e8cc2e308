[package]
name = "haneng"
version = "0.1.0"
edition = "2021"
publish = false

[dependencies]
x11rb = { version = "0.13", features = ["record", "xfixes", "xtest"] }
fontdue = "0.9"
ureq = "3"
