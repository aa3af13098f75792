[package]
name = "par6d"
version = "0.1.0"
edition = "2021"
publish = false

[dependencies]
clap = { version = "4", features = ["derive", "env"] }
env_logger = "0.11"
file-rotate = "*"
jiff = "0.2"
libc = "0.2"
log = { version = "0.4", features = ["std"] }
thiserror = "*"
tokio = { version = "1", features = ["rt-multi-thread", "time", "macros", "sync"] }
