[package]
name = "comms"
version = "0.1.0"
edition = "2021"
publish = false

[dependencies]
aes-gcm = "=0.10.3"
anyhow = "=1.0.104"
async-stream = "=0.3.6"
base64 = "=0.22.1"
clap = { version = "=4.6.7", features = ["derive"] }
colored = "=2.2.0"
crossterm = { version = "=0.29.0", features = ["event-stream"] }
futures-util = "=0.3.34"
home = "=0.5.12"
keyring = "=3.6.3"
ratatui = { version = "=0.30.2", features = ["unstable-rendered-line-info"] }
reqwest = { version = "=0.12.28", default-features = false, features = ["json", "stream", "rustls-tls"] }
rusqlite = { version = "=0.32.1", features = ["bundled"] }
rustyline = "=14.0.0"
serde = { version = "=1.0.229", features = ["derive"] }
serde_json = "=1.0.154"
terminal-colorsaurus = "=1.0.3"
textwrap = { version = "=0.16.4", features = ["terminal_size"] }
tokio = { version = "=1.54.1", features = ["full"] }
tui-markdown = "=0.3.13"
uuid = { version = "=1.29.0", features = ["v4"] }
