[package]
name = "mbar"
version = "0.1.0"
edition = "2021"
publish = false

[dependencies]
chrono = "0.4"
urlencoding = "2"
serde = { version = "1", features = ["derive"] }
serde_json = "1"
ureq = { version = "2", features = ["json"] }
oauth2 = { version = "5", default-features = false, features = ["ureq"] }
sysinfo = "*"
nvml-wrapper = "*"
home = "0.5"
tiny_http = "0.12"
mimalloc = "*"
cxx-qt = "0.7"
cxx-qt-lib = "0.7"
