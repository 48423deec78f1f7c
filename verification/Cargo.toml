[package]
name = "ps_aim_windows"
version = "0.1.0"
edition = "2021"
publish = false

[dependencies]
serde_json = "=1.0.154"
hidapi = { version = "=2.6.7", default-features = false, features = ["linux-native-basic-udev"] }
vigem-rust = "0.1.1"
windows = { version = "=0.62.2", features = ["Win32_Foundation", "Win32_Security", "Win32_System_JobObjects", "Win32_System_Threading", "Win32_UI_Input_KeyboardAndMouse", "Win32_UI_WindowsAndMessaging"] }
