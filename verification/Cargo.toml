[package]
name = "ipcc_installer"
version = "0.1.0"
edition = "2021"
publish = false

[dependencies]
log = "=0.4.34"
regex = "=1.13.1"
rsmobiledevice = "=0.0.0"
tar = { version = "0.4", default-features = false }
tauri = { version = "=2.12.5", default-features = false }
zip = { version = "2", default-features = false, features = ["deflate"] }
