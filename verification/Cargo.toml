[package]
name = "gh_docs_download"
version = "0.1.0"
edition = "2021"
publish = false

[dependencies]
url = "2"
clap = { version = "4", features = ["derive"] }
thiserror = "2"
tempfile = "3"
walkdir = "2"
