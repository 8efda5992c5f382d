[package]
name = "pdhv"
version = "0.1.0"
edition = "2021"
publish = false

[dependencies]
random_color = "*"
serde_json = "*"
bytemuck = { version = "*", features = ["derive"] }
wgpu = "0.15"
wgpu_glyph = "0.19"
image = { version = "0.24", default-features = false, features = ["png"] }
pollster = "*"
env_logger = "*"
raw-window-handle = "0.5"
windows-sys = { version = "0.48", features = [
    "Win32_Foundation",
    "Win32_Graphics_Gdi",
    "Win32_System_LibraryLoader",
    "Win32_System_Performance",
    "Win32_System_SystemInformation",
    "Win32_UI_Controls_Dialogs",
    "Win32_UI_HiDpi",
    "Win32_UI_WindowsAndMessaging",
] }
