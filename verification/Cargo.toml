[package]
name = "feather_calendar"
version = "0.1.0"
edition = "2021"
publish = false

[dependencies]
chrono = "0.4"
egui = { version = "0.27", default-features = false }
image = { version = "0.24", default-features = false, features = ["png"] }
