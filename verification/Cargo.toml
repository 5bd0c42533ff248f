[package]
name = "keytweak"
version = "0.1.0"
edition = "2021"
publish = false

[dependencies]
serde = { version = "=1.0.229", features = ["derive"] }
serde_json = "=1.0.154"
thiserror = "=1.0.69"
log = "=0.4.35"
env_logger = "=0.11.11"
dirs = "=5.0.1"
arboard = { version = "=3.7.0", default-features = false }
reqwest = { version = "=0.12.28", default-features = false, features = ["blocking", "json"] }
tokio = { version = "=1.54.1", features = ["process", "io-util", "sync", "time", "rt-multi-thread", "macros"] }
windows = { version = "=0.58.0", features = ["Win32_Foundation", "Win32_UI_Input_KeyboardAndMouse", "Win32_UI_WindowsAndMessaging", "Win32_System_Registry", "Win32_System_Threading", "Win32_System_LibraryLoader", "Win32_Storage_FileSystem"] }
regex-syntax = { version = "=0.8.11", features = ["unicode-perl"] }
