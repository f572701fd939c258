[package]
name = "nvim_gtk"
version = "0.1.0"
edition = "2021"
publish = false

[dependencies]
fnv = "=1.0.7"
regex = "=1.13.1"
percent-encoding = "=2.3.2"
htmlescape = "=0.3.1"
neovim-lib = "=0.6.1"
rmpv = "=0.4.7"
rmp = "=0.8.10"
toml = "=0.5.11"
serde = { version = "=1.0.229", features = ["derive"] }
serde_json = "=1.0.154"
log = "=0.4.35"
env_logger = "=0.7.1"
clap = "=2.34.0"
unicode-segmentation = "=1.13.3"
atty = "=0.2.14"
unix-daemonize = "=0.1.2"
dirs = "=2.0.2"
