[package]
name = "fileio_etw"
version = "0.1.0"
edition = "2021"
publish = false

[dependencies]
hex = "=0.4.3"
serde = { version = "=1.0.229", features = ["derive"] }
serde_json = "=1.0.154"
log = "=0.4.35"
env_logger = "=0.11.11"
clap = { version = "=4.6.7", features = ["derive"] }
memmap2 = "=0.9.12"
ferrisetw = "=1.2.0"
windows = { version = "=0.57.0", features = ["Win32_Foundation", "Win32_System_Diagnostics_Etw"] }
