[package]
name = "dll_proxy"
version = "0.1.0"
edition = "2021"
publish = false

[dependencies]
clap = { version = "*", features = ["derive"] }
windows-sys = { version = "*", features = ["Win32_Foundation", "Win32_System_LibraryLoader"] }
