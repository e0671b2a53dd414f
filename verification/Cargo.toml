[package]
name = "shellcraft"
version = "0.1.0"
edition = "2021"
publish = false

[dependencies]
anyhow = "*"
chrono = "*"
console = "*"
crossterm = "*"
ctrlc = "*"
libc = "*"
log = "*"
once_cell = "*"
pathdiff = "*"
portable-pty = "*"
reqwest = { version = "*", default-features = false, features = ["json", "rustls-tls", "blocking"] }
serde = { version = "*", features = ["derive"] }
serde_json = "*"
signal-hook = "*"
similar = "*"
tempfile = "*"
tokio = { version = "*", features = ["macros", "rt-multi-thread", "time", "fs"] }
toml = "*"
walkdir = "*"
which = "*"
