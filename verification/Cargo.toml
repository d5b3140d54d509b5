[package]
name = "correlation"
version = "0.1.0"
edition = "2021"
publish = false

[dependencies]
handlebars = "*"
uuid = { version = "*", features = ["v4"] }
