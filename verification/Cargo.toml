[package]
name = "dir_picker"
version = "0.1.0"
edition = "2021"
publish = false

[dependencies]
glob = "0.3"
shellexpand = "2.1"
dirs-next = "2.0"
config = { version = "0.11", default-features = false, features = ["yaml"] }
serde = { version = "1", features = ["derive"] }
