[package]
name = "git_editor"
version = "0.1.0"
edition = "2021"
publish = false

[dependencies]
chrono = "=0.4.45"
rand = "=0.10.3"
git2 = "=0.21.0"
clap = { version = "=4.6.7", features = ["derive"] }
colored = "=3.1.1"
libc = "=0.2.190"
url = "=2.5.8"
tempfile = "=3.27.0"
