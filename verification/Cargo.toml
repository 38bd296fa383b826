[package]
name = "service_launcher"
version = "0.1.0"
edition = "2021"
publish = false

[dependencies]
rusqlite = { version = "=0.40.2", features = ["bundled"] }
serde = { version = "=1.0.229", features = ["derive"] }
serde_json = "=1.0.154"
tauri = { version = "=2.12.5", default-features = false, features = ["wry"] }
uuid = { version = "=1.29.0", features = ["v4"] }
windows = { version = "=0.62.2", features = ["UI_ViewManagement", "Win32_Foundation", "Win32_Graphics_Dwm"] }
windows-sys = { version = "=0.61.2", features = ["Win32_Foundation", "Win32_System_Diagnostics_ToolHelp", "Win32_System_Registry", "Win32_System_Threading"] }
