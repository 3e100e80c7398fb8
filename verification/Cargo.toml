[package]
name = "condense"
version = "0.1.0"
edition = "2021"
publish = false

[dependencies]
anyhow = "1"
clap = { version = "4", features = ["derive"] }
ignore = "0.4"
minify-js = "*"
rustminify = "*"
syn = { version = "1", features = ["full"] }
toml = "0.8"
