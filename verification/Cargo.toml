[package]
name = "sysinfo_cli"
version = "0.1.0"
edition = "2021"
publish = false

[dependencies]
clap = { version = "4", features = ["derive"] }
colored = "2"
libc = "0.2"
sysinfo = "0.30"
