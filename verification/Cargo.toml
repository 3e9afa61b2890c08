[package]
name = "zerolinux-cleaner"
version = "3.0.0"
edition = "2021"
publish = false

[dependencies]
env_logger = "0.11"
libc = "0.2"
log = "0.4"
slint = { version = "~1.4", default-features = false, features = ["compat-1-2", "std"] }
sysinfo = { version = "0.33", default-features = false, features = ["system", "disk"] }
