[package]
name = "homo"
version = "0.1.0"
edition = "2021"
publish = false

[dependencies]
pulldown-cmark = { version = "0.12", default-features = false, features = ["html"] }
syntect = { version = "5", default-features = false, features = ["default-fancy"] }
serde = { version = "1", features = ["derive"] }
serde_json = "1"
thiserror = "1"
log = "0.4"
env_logger = "0.11"
atty = "0.2"
lazy_static = "1"
open = "5"
cacao = { version = "0.3", features = ["webview"] }
cocoa = "*"
core-foundation = "*"
objc = "0.2"
