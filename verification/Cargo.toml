[package]
name = "waver"
version = "0.1.0"
edition = "2021"
publish = false

[dependencies]
png = "=0.18.1"
clap = { version = "=4.6.7", features = ["derive"] }
symphonia = { version = "=0.5.5", features = ["mp3"] }
rayon = "=1.12.0"
walkdir = "=2.5.0"
thiserror = "=2.0.21"

[dev-dependencies]
flate2 = "=1.1.10"
