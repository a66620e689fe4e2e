[package]
name = "md5check"
version = "0.1.0"
edition = "2021"
publish = false

[dependencies]
md5 = "*"
clap = { version = "*", features = ["derive"] }
clap-verbosity-flag = "*"
env_logger = "*"
log = "*"
tokio = { version = "*", features = ["rt", "macros", "fs", "io-util"] }
