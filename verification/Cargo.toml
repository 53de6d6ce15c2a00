[package]
name = "laser_setup"
version = "0.1.0"
edition = "2021"
publish = false

[dependencies]
rand = "0.8"
tokio = { version = "1", features = ["rt", "macros", "time", "io-util"] }
tokio-serial = { version = "5", default-features = false }
tokio-util = { version = "0.7", features = ["codec"] }
futures = "0.3"
embedded-hal-async = "1"
bytes = "1"
