[package]
name = "ftp_server"
version = "0.1.0"
edition = "2021"
publish = false

[dependencies]
chrono = "0.4"
clap = { version = "4", features = ["derive"] }
env_logger = "*"
log = "0.4"
rayon = "1"
tar = "0.4"
thiserror = "*"

[dev-dependencies]
tempfile = "3"
