[package]
name = "nrs"
version = "0.4.3"
edition = "2021"
publish = false

[dependencies]
actix-files = "0.6"
actix-web = "4"
async-openai = "0.10"
clap = { version = "4", features = ["derive"] }
crossterm = "0.26"
dirs = "5"
futures = "0.3"
ratatui = "0.21"
regex = "1"
serde = { version = "1", features = ["derive"] }
serde_json = "1"
tokio = { version = "1", features = ["full"] }
walkdir = "2"
