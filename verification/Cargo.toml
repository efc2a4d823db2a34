[package]
name = "mantra"
version = "0.1.0"
edition = "2021"
publish = false

[dependencies]
comrak = "=0.59.0"
json5 = "=1.3.7"
serde_json = "=1.0.154"
serde = { version = "=1.0.229", features = ["derive"] }
mime_guess = "=2.0.5"
quick-junit = "=0.8.0"
time = { version = "=0.3.55", features = ["parsing"] }
chrono = "=0.4.45"
anyhow = "=1.0.104"
thiserror = "=2.0.21"
clap = { version = "=4.6.7", features = ["derive"] }
glob = "=0.3.4"
intervaltree = "=0.2.7"
covcon = "=0.3.0"
