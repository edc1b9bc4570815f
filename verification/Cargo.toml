[package]
name = "lumen"
version = "0.1.0"
edition = "2021"
publish = false

[dependencies]
anyhow = "1"
base64 = "0.21"
clap = { version = "4", features = ["derive"] }
env_logger = "0.10"
glob = "0.3"
js-sys = "0.3"
log = "0.4"
notify = "4"
rand = "0.8"
rayon = "1"
serde = { version = "1", features = ["derive"] }
serde_json = "1"
tempfile = "3"
thiserror = "1"
tokio = { version = "1", features = ["rt-multi-thread", "macros", "time", "sync"] }
walkdir = "2"
wasm-bindgen = "0.2"
