[package]
name = "cleanbox"
version = "0.1.0"
edition = "2021"
publish = false

[dependencies]
chrono = "*"
clap = { version = "*", features = ["derive"] }
infer = "*"
rexif = "*"
rustyline = "*"
sha1 = "*"
