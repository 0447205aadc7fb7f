[package]
name = "hcbs_manager"
version = "0.1.0"
edition = "2021"
publish = false

[dependencies]
anyhow = "1"
clap = { version = "4", features = ["derive"] }
ctrlc = "3"
env_logger = "0.11"
fuser = { version = "0.16", default-features = false }
libc = "0.2"
log = "0.4"
sysinfo = "0.35"
