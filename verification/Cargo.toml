[package]
name = "larps"
version = "0.1.0"
edition = "2021"
publish = false

[dependencies]
anyhow = "=1.0.104"
bumpalo = "=3.20.3"
snap = "=1.1.2"
serde = { version = "=1.0.229", features = ["derive"] }
serde_bare = "=0.5.0"
serde_json = "=1.0.154"
parking_lot = "=0.12.5"
egui = "=0.26.2"
png = "=0.17.16"
libloading = "=0.8.9"
chumsky = "=0.9.3"
heck = "=0.4.1"
windows-sys = { version = "=0.52.0", features = ["Win32_Foundation", "Win32_Networking_WinSock", "Win32_NetworkManagement_IpHelper", "Win32_System_Threading", "Win32_UI_Controls", "Win32_UI_WindowsAndMessaging", "Win32_Graphics_Dwm", "Win32_Graphics_Gdi", "Win32_Graphics_OpenGL", "Win32_System_LibraryLoader", "Win32_UI_Input_KeyboardAndMouse"] }
