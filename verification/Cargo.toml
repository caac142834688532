[package]
name = "ssufid"
version = "0.1.0"
edition = "2021"
publish = false

[dependencies]
time = { version = "=0.3.55", features = ["formatting", "parsing", "macros"] }
indexmap = "=2.14.2"
mime_guess = "=2.0.5"
url = "=2.5.8"
scraper = "=0.23.1"
base64 = "=0.22.1"
encoding_rs = "=0.8.44"
serde = { version = "=1.0.229", features = ["derive"] }
serde_json = "=1.0.154"
tokio = { version = "=1.54.1", features = ["rt-multi-thread", "macros"] }
reqwest = { version = "=0.12.28", default-features = false, features = ["rustls-tls", "cookies"] }
clap = { version = "=4.6.7", features = ["derive"] }
serde_yaml = "0.9"
lz-str = "*"
