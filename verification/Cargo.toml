[package]
name = "bcachefs_units"
version = "0.1.0"
edition = "2021"
publish = false

[dependencies]
anyhow = "*"
env_logger = "*"
fstab = "*"
log = "*"
systemd = "*"
