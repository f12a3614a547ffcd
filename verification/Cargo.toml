[package]
name = "simple_page"
version = "0.1.0"
edition = "2021"
publish = false

[dependencies]
pulldown-cmark = "*"
handlebars = "*"
serde_json = "*"
clap = "*"
