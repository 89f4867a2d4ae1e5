[package]
name = "kb_host"
version = "0.1.0"
edition = "2021"
publish = false

[dependencies]
palette = "=0.6.1"
hidapi = { version = "=2.6.7", default-features = false, features = ["linux-native-basic-udev"] }
crossbeam = "=0.8.5"
serde = { version = "=1.0.229", features = ["derive"] }
serde_json = "=1.0.151"
dirs = "=4.0.0"
