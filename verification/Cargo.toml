[package]
name = "mailmerge"
version = "0.1.0"
edition = "2021"
publish = false

[dependencies]
anyhow = "*"
clap = "*"
wkhtmltopdf = "*"

[dev-dependencies]
serde_json = "*"
