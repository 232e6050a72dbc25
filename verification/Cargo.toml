[package]
name = "exec_logger"
version = "0.1.0"
edition = "2021"
publish = false

[dependencies]
anyhow = "=1.0.104"
arc-swap = "*"
chrono = "=0.4.45"
fs-err = "=3.3.2"
once_cell = "=1.21.4"
whoami = "=1.6.1"
