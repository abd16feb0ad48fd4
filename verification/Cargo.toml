[package]
name = "magnetar-provider-cpu"
version = "0.1.0"
edition = "2021"
publish = false

[dependencies]
magnetar-runtime = { version = "=1.0.0", default-features = false }
