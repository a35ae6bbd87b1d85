[package]
name = "aoostar"
version = "0.1.0"
edition = "2021"
publish = false

[dependencies]
anyhow = "1"
bytes = "1"
chrono = "0.4"
libc = "0.2"
log = "0.4"
serde = { version = "1", features = ["derive"] }
serialport = { version = "4", default-features = false }
toml = "*"
windows-sys = { version = "0.60", features = ["Win32_Foundation", "Win32_Devices_DeviceAndDriverInstallation", "Win32_System_LibraryLoader", "Win32_System_Power", "Win32_System_Threading", "Win32_UI_WindowsAndMessaging"] }
