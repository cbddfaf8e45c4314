[package]
name = "circe"
version = "0.1.0"
edition = "2021"
publish = false

[dependencies]
clap = { version = "4", features = ["derive"] }
syn = { version = "2", features = ["full"] }
thiserror = "1"
