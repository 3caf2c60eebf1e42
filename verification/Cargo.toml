[package]
name = "minimux"
version = "0.1.0"
edition = "2021"
publish = false

[dependencies]
anyhow = "=1.0.104"
bincode = "=1.3.3"
serde = { version = "=1.0.229", features = ["derive"] }
clap = { version = "=4.6.7", features = ["derive"] }
crossterm = "=0.28.1"
dirs = "=5.0.1"
libc = "=0.2.191"
portable-pty = "=0.8.1"
vt100 = "0.16"
windows-sys = { version = "=0.59.0", features = ["Win32_Foundation", "Win32_Security", "Win32_System_Threading", "Win32_System_Pipes", "Win32_System_Console", "Win32_System_IO"] }
