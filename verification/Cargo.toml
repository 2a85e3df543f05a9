[package]
name = "rsfetch"
version = "0.1.0"
edition = "2021"
publish = false

[dependencies]
owo-colors = "4"
sysinfo = "0.33"
clap = { version = "4", features = ["derive"] }
supports-color = "3"
toml = "0.8"
serde = { version = "1", features = ["derive"] }
