[package]
name = "ve_analyzer"
version = "0.1.0"
edition = "2021"
publish = false

[dependencies]
fitparser = "*"
tiff = "*"
proj4rs = "*"
serde = { version = "1", features = ["derive"] }
