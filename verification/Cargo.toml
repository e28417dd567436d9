[package]
name = "podping_tray"
version = "0.1.0"
edition = "2021"
publish = false

[dependencies]
anyhow = "1"
axum = { version = "0.7", default-features = false, features = ["http1", "json", "query", "tokio"] }
directories = "5"
eframe = { version = "0.28", default-features = false, features = ["default_fonts", "glow"] }
egui = { version = "0.28", default-features = false }
muda = { version = "0.15", default-features = false }
open = "5"
rfd = { version = "0.14", default-features = false, features = ["gtk3"] }
serde = { version = "1", features = ["derive"] }
serde_json = "=1.0.154"
tokio = { version = "1", features = ["net", "rt", "sync"] }
tokio-stream = { version = "0.1", features = ["sync"] }
toml = { version = "0.8", default-features = false, features = ["parse", "display"] }
tray-icon = { version = "0.19", default-features = false }
windows-sys = { version = "0.59", features = ["Win32_Foundation", "Win32_System_Registry", "Win32_UI_WindowsAndMessaging"] }
