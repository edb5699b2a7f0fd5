[package]
name = "sitegen"
version = "0.1.0"
edition = "2021"
publish = false

[dependencies]
pulldown-cmark = "0.11"
anyhow = "1"
memmap2 = "0.9"
notify = "*"
bitcode = { version = "*", features = ["serde"] }
serde = { version = "1", features = ["derive"] }
image = "*"
webp = "*"
css-minify = "*"
minify-js = "*"
minify-html-onepass = "*"
curl = "*"
mimalloc = "*"
