[package]
name = "unveil-rs"
version = "0.1.0"
edition = "2021"
publish = false

[dependencies]
anyhow = "=1.0.104"
clap = "=2.34.0"
horrorshow = "=0.8.9"
notify = "=6.1.1"
open = "=5.4.5"
pulldown-cmark = { version = "=0.9.6", default-features = false }
sass-rs = "=0.2.2"
serde = { version = "=1.0.229", features = ["derive"] }
tokio = { version = "=1.54.1", features = ["rt-multi-thread", "macros"] }
toml = "=0.5.11"
warp = { version = "=0.3.7", default-features = false }
ws = "=0.9.2"

[dev-dependencies]
regex = "1"
