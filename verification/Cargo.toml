[package]
name = "em_bindgen"
version = "0.1.0"
edition = "2021"
publish = false

[dependencies]
chrono = "0.4"
log = "0.4"
mime_guess = "2"
