[package]
name = "quboid"
version = "0.1.3"
edition = "2021"
publish = false

[dependencies]
serde = { version = "=1.0.229", features = ["derive"] }
serde_json = "=1.0.154"
thiserror = "=2.0.21"
crossbeam-channel = "=0.5.17"
tracing = "=0.1.44"
tracing-appender = "=0.2.5"
tracing-subscriber = { version = "=0.3.23", features = ["env-filter"] }
winreg = "=0.56.0"
windows = { version = "=0.62.2", features = ["Win32_Foundation", "Win32_Globalization", "Win32_UI_HiDpi", "Win32_Graphics_Dwm", "Win32_Graphics_Gdi", "Win32_System_Threading", "Win32_System_SystemServices", "Win32_UI_Accessibility", "Win32_UI_Input_KeyboardAndMouse", "Win32_UI_WindowsAndMessaging", "Win32_Storage_Packaging_Appx", "ApplicationModel", "Foundation"] }
egui = "=0.37.0"
eframe = { version = "0.37", default-features = false, features = ["accesskit", "default_fonts", "glow"] }
rfd = { version = "*", default-features = false }
tray-icon = { version = "*", default-features = false }
