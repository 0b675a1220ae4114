[package]
name = "html_exporter"
version = "0.1.0"
edition = "2021"
publish = false

[dependencies]
regex = "1"
scraper = "*"
serde = { version = "1", features = ["derive"] }
serde_yaml = "0.9"
argopt = "*"
typst = "0.14"
typst-html = "0.14"
typst-kit = "0.14"
