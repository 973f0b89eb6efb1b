[package]
name = "wiki-tui"
version = "0.1.0"
edition = "2021"
publish = false

[dependencies]
crossterm = "=0.27.0"
ratatui = "=0.24.0"
# wiki-api derives the traits of serde without asking for the feature.
serde = { version = "=1.0.229", features = ["derive"] }
textwrap = "=0.16.4"
tracing = "=0.1.44"
wiki-api = "=0.1.2"
