[package]
name = "rusty_dash"
version = "0.1.0"
edition = "2021"
publish = false

[dependencies]
chrono = { version = "0.4", features = ["serde"] }
diesel = { version = "2", features = ["postgres", "chrono", "r2d2"] }
handlebars = "*"
hyper = "0.10"
r2d2 = "0.8"
serde = { version = "1", features = ["derive"] }
serde_json = "1"
