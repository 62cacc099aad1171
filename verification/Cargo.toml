[package]
name = "voxtype"
version = "0.1.0"
edition = "2021"
publish = false

[dependencies]
base64 = "=0.22.1"
anyhow = "=1.0.104"
async-trait = "=0.1.92"
tokio = { version = "=1.54.1", features = ["rt-multi-thread", "macros", "sync", "time", "fs"] }
reqwest = { version = "=0.12.28", features = ["json", "stream"] }
serde = { version = "=1.0.229", features = ["derive"] }
serde_json = "=1.0.154"
tokio-tungstenite = { version = "=0.24.0", features = ["native-tls"] }
futures-util = "=0.3.34"
futures = "=0.3.34"
async-stream = "=0.3.6"
tracing = "=0.1.44"
arboard = { version = "=3.7.0", default-features = false }
enigo = "=0.6.1"
hound = "=3.5.1"
windows-sys = { version = "=0.61.2", features = ["Win32_UI_Input_KeyboardAndMouse"] }
