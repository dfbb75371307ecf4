[package]
name = "sitegen"
version = "0.1.0"
edition = "2021"
publish = false

[dependencies]
anyhow = "*"
chrono = { version = "*", features = ["serde"] }
gray_matter = "=0.3.2"
html-escape = "=0.2.15"
ico = "*"
pulldown-cmark = "=0.13.4"
resvg = "*"
serde = { version = "*", features = ["derive"] }
serde_json = "*"
tera = "*"
url = "=2.5.8"
urlencoding = "=2.1.3"
walkdir = "*"
