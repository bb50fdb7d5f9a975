[package]
name = "launcher_bootstrap"
version = "0.1.0"
edition = "2021"
publish = false

[dependencies]
tar = "=0.4.46"
xz2 = "=0.1.7"
tauri = { version = "=2.12.5", default-features = false }
tauri-plugin-fs = { version = "2", default-features = false }
tauri-plugin-http = { version = "2", default-features = false }
tauri-plugin-os = { version = "=2.4.0", default-features = false }
