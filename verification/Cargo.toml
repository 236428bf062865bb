[package]
name = "duelist_helper"
version = "0.1.0"
edition = "2021"
publish = false

[dependencies]
anyhow = "1"
crossterm = "0.27"
ratatui = "0.26"
regex = "1"
reqwest = "0.11"
tokio = { version = "1", features = ["full"] }
yew = "0.21"
