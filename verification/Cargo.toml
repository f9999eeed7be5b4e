[package]
name = "himawari8"
version = "0.1.0"
edition = "2021"
publish = false

[dependencies]
chrono = "=0.4.45"
image = { version = "=0.25.10", default-features = false, features = ["png", "jpeg", "bmp"] }
png = "=0.17.16"
rust-ini = "=0.21.3"
reqwest = { version = "=0.12.28", default-features = false, features = ["blocking"] }
wallpaper = { version = "=3.2.0", default-features = false }
lazy_static = "=1.5.1"
log = "=0.4.35"
thread-id = "=4.2.2"
winapi = { version = "=0.3.9", features = ["winuser", "shellapi", "shlobj", "wingdi", "winnt", "minwindef", "windef", "basetsd", "ntdef", "commdlg"] }
sciter-rs = "=0.5.58"
jni = "=0.21.1"
android_logger = "=0.13.3"
