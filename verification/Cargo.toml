[package]
name = "sheet_to_md"
version = "0.1.0"
edition = "2021"
publish = false

[dependencies]
calamine = "*"
comrak = "*"
html-minifier = "*"
htmlescape = "*"
madato = "*"
