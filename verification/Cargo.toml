[package]
name = "rocket_app"
version = "0.1.0"
edition = "2021"
publish = false

[dependencies]
rocket = { version = "0.5", features = ["json"] }
diesel = { version = "2", features = ["sqlite", "r2d2"] }
