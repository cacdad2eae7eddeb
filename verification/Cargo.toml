[package]
name = "areweguiyet_cli"
version = "0.1.0"
edition = "2021"
publish = false

[dependencies]
clap = "4"
crates_io_api = "*"
pulldown-cmark = "*"
reqwest = { version = "*", features = ["blocking"] }
serde = { version = "1", features = ["derive"] }
serde_json = "1"
tera = "1"
toml = "*"
