[package]
name = "terki_panes"
version = "0.1.0"
edition = "2021"
publish = false

[dependencies]
anyhow = "1"
clap = "2"
crossterm = "0.17"
dirs = "2"
shell-words = "1"
tokio = { version = "0.2", features = ["macros", "rt-threaded"] }
url = "2"
