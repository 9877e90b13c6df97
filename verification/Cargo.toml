[package]
name = "kernel_fuzz"
version = "0.1.0"
edition = "2021"
publish = false

[dependencies]
base64 = "=0.23.1"
uuid = { version = "=1.27.0", features = ["v4"] }
serde = { version = "=1.0.229", features = ["derive"] }
serde_json = "=1.0.151"
serde_yaml = "=0.9.34"
clap = { version = "=4.6.7", features = ["derive"] }
walkdir = "=2.5.0"
shared_memory = "=0.12.4"
tera = "1"
tera-text-filters = "=1.0.0"
sanitise-file-name = "=1.0.0"
