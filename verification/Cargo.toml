[package]
name = "template_spec"
version = "0.1.0"
edition = "2021"

[dependencies]
mediawiki_parser = "=0.4.2"
pulldown-cmark = { version = "=0.13.5", default-features = false, features = ["html"] }
