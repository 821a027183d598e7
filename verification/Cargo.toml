[package]
name = "quotadock"
version = "0.6.0"
edition = "2021"
publish = false

[dependencies]
serde = { version = "1", features = ["derive"] }
serde_json = { version = "1", features = ["arbitrary_precision"] }
base64 = "0.22"
minisign-verify = "0.2"
reqwest = { version = "0.12", default-features = false, features = ["blocking", "rustls-tls"] }
rustls = { version = "0.23", default-features = false, features = ["ring", "std"] }
keyring = "3"
winreg = "0.52"
windows-sys = { version = "0.59", features = ["Win32_Foundation", "Win32_Storage_FileSystem", "Win32_UI_Shell", "Win32_UI_WindowsAndMessaging"] }
portable-pty = "0.8"
