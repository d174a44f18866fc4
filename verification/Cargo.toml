[package]
name = "codex-router-gui"
version = "0.1.0"
edition = "2021"
publish = false

[dependencies]
anyhow = "1"
sha2 = "0.10"
zeroize = "1"
dirs = "5"
libc = "0.2"
windows-sys = { version = "0.59", features = ["Win32_Foundation", "Win32_Security_Credentials", "Win32_System_Registry"] }
