[package]
name = "winglide"
version = "0.1.0"
edition = "2021"
publish = false

[dependencies]
nu-ansi-term = "0.50"
anyhow = "1"
serde = { version = "1", features = ["derive"] }
reqwest = { version = "0.12", default-features = false, features = ["blocking", "json", "rustls-tls"] }
tracing = "0.1"
tracing-appender = "0.2"
tracing-forest = "0.1"
tracing-subscriber = { version = "0.3", features = ["fmt", "json", "registry"] }
winvd = "*"
windows = { version = "0.61", features = ["Win32_Foundation", "Win32_UI_WindowsAndMessaging", "Win32_UI_Input_KeyboardAndMouse", "Win32_System_LibraryLoader", "Win32_System_Threading", "Win32_System_Com", "Win32_System_Com_StructuredStorage", "Win32_System_Variant", "Win32_UI_Accessibility", "Win32_UI_Shell", "Win32_UI_Shell_PropertiesSystem", "Win32_Storage_EnhancedStorage", "Win32_Graphics_Gdi", "Win32_System_Registry", "Win32_Security", "Win32_System_Console", "Win32_UI_HiDpi"] }
