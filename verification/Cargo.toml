[package]
name = "cohoard"
version = "0.1.0"
edition = "2021"
publish = false

[dependencies]
tera = "1"
serde_json = "1"
css-inline = { version = "0.8", default-features = false }
kuchiki = "0.8"
pulldown-cmark = "0.9"
serde = { version = "1", features = ["derive"] }
clap = { version = "4", features = ["derive"] }
