[package]
name = "screen_tune"
version = "0.1.1"
edition = "2021"
publish = false

[dependencies]
anyhow = "=1.0.104"
directories = "=6.0.0"
eframe = { version = "=0.35.0", default-features = false, features = ["glow", "default_fonts", "x11"] }
egui = { version = "=0.35.0", default-features = false, features = ["default_fonts"] }
global-hotkey = "=0.7.0"
serde = { version = "=1.0.229", features = ["derive"] }
serde_json = "=1.0.154"
tokio = { version = "=1.54.1", default-features = false, features = ["rt-multi-thread", "time"] }
tracing = "=0.1.44"
tracing-appender = "=0.2.5"
tracing-subscriber = { version = "=0.3.23", default-features = false, features = ["env-filter", "fmt", "ansi", "registry"] }
tray-icon = { version = "=0.24.2", default-features = false }
windows = { version = "=0.58.0", features = ["Win32_Foundation", "Win32_Graphics_Gdi", "Win32_Devices_Display", "Win32_System_Registry", "Win32_System_Diagnostics_ToolHelp", "Win32_UI_ColorSystem", "Win32_UI_WindowsAndMessaging"] }
