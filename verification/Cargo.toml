[package]
name = "hotpath"
version = "0.1.0"
edition = "2021"
publish = false

[dependencies]
base64 = "0.22"
clap = { version = "4", features = ["derive"] }
eyre = "0.6"
libc = "0.2"
ratatui = "0.29"
serde = { version = "1", features = ["derive"] }
ureq = { version = "3", default-features = false, features = ["json"] }
