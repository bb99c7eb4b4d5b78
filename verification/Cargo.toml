[package]
name = "dial"
version = "0.1.0"
edition = "2021"
publish = false

[dependencies]
anyhow = "=1.0.104"
thiserror = "=1.0.69"
log = "=0.4.34"
env_logger = "=0.11.11"
rustyline = "=19.0.0"

[dev-dependencies]
num = "=0.4.3"
