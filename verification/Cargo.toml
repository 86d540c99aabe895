[package]
name = "benchboss"
version = "0.1.0"
edition = "2021"
publish = false

[dependencies]
anyhow = "=1.0.104"
env_logger = "=0.11.11"
log = "=0.4.35"
serde = { version = "=1.0.229", features = ["derive"] }
tokio = { version = "=1.54.1", features = ["rt", "time"] }
vigem-client = "=0.1.4"
rusty-xinput = "=1.3.0"
windows = { version = "=0.58.0", features = ["Win32_Foundation", "Win32_System_LibraryLoader", "Win32_UI_Input", "Win32_UI_WindowsAndMessaging"] }
