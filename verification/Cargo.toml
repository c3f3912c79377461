[package]
name = "mdbook_diagrams"
version = "0.1.0"
edition = "2021"
publish = false

[dependencies]
sha1 = "*"
base64 = "*"
mime = "*"
mdbook = { version = "*", default-features = false }
pulldown-cmark = "*"
pulldown-cmark-to-cmark = "*"
serde_json = "*"
semver = "*"
ureq = "*"
