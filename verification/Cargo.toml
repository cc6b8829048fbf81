[package]
name = "gamingmode"
version = "0.1.0"
edition = "2021"
publish = false

[dependencies]
serde = { version = "=1.0.229", features = ["derive"] }
serde_json = "=1.0.154"
toml = "=0.8.23"
log = "=0.4.35"
env_logger = "=0.11.11"
ureq = { version = "=2.12.1", default-features = false, features = ["native-tls"] }
native-tls = "=0.2.18"
windows = { version = "=0.58.0", features = ["Win32_Foundation", "Win32_Security", "Win32_System_Diagnostics_ToolHelp", "Win32_System_Power", "Win32_System_ProcessStatus", "Win32_System_Registry", "Win32_System_Services", "Win32_System_SystemInformation", "Win32_System_Threading", "Win32_System_LibraryLoader", "Win32_UI_Input"] }
image = { version = "0.25", default-features = false, features = ["png", "jpeg", "webp"] }
