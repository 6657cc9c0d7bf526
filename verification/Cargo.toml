[package]
name = "render-core"
version = "0.1.0"
edition = "2021"
publish = false

[dependencies]
anyhow = "1"
hound = "3.5"
natord = "1.0"
num_cpus = "1"
reqwest = { version = "0.12", default-features = false, features = ["blocking"] }
serde = { version = "1", features = ["derive"] }
serde_json = "1"
sysinfo = "0.29"
tempfile = "3"
tracing = "0.1"
whisper-rs = "0.15"
