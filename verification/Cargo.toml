[package]
name = "linux_disk_space_manager"
version = "0.1.0"
edition = "2021"
publish = false

[dependencies]
serde = { version = "1", features = ["derive"] }
serde_yaml = "0.9"
nix = { version = "*", features = ["fs"] }
glob = "0.3"
flate2 = "1"
chrono = "0.4"
gethostname = "*"
