[package]
name = "installer"
version = "0.1.0"
edition = "2021"
publish = false

[dependencies]
chrono = { version = "=0.4.45", default-features = false, features = ["clock"] }
dirs = "=5.0.1"
mysql = { version = "=25.0.1", default-features = false, features = ["minimal-rust"] }
reqwest = { version = "=0.11.27", default-features = false, features = ["blocking"] }
rust-embed = "=8.13.0"
which = "=6.0.3"
winreg = "=0.52.0"
