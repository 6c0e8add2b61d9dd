[package]
name = "muri"
version = "0.11.0"
edition = "2021"
publish = false

[dependencies]
accesskit = "=0.17.1"
accesskit_macos = "0.18"
accesskit_unix = "=0.13.1"
accesskit_windows = "0.24"
block2 = "0.6"
ksni = { version = "=0.3.7", features = ["blocking"] }
objc2 = "0.6"
objc2-app-kit = "0.3"
objc2-core-foundation = "0.3"
objc2-core-graphics = "0.3"
objc2-foundation = "0.3"
smithay-client-toolkit = { version = "=0.20.0", default-features = false }
wayland-client = "=0.31.15"
windows-sys = { version = "=0.61.2", features = [
    "Win32_Foundation",
    "Win32_Graphics_Dwm",
    "Win32_Graphics_Gdi",
    "Win32_Security",
    "Win32_System_LibraryLoader",
    "Win32_System_Registry",
    "Win32_UI_HiDpi",
    "Win32_UI_Input_KeyboardAndMouse",
    "Win32_UI_Shell",
    "Win32_UI_WindowsAndMessaging",
] }
x11rb = "=0.13.2"
zbus = "=5.19.0"
