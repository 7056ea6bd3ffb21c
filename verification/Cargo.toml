[package]
name = "pypi_mirror"
version = "0.1.0"
edition = "2021"
publish = false

[dependencies]
base64 = "0.22"
bzip2 = "0.4"
chrono = { version = "0.4", features = ["serde"] }
clap = { version = "4", features = ["derive"] }
content_inspector = "0.2"
flate2 = "1"
git2 = { version = "0.19", default-features = false }
rayon = "1"
serde = { version = "1", features = ["derive"] }
serde_json = "1"
tar = "0.4"
thiserror = "1"
ureq = "2"
url = { version = "2", features = ["serde"] }
zip = { version = "2", default-features = false, features = ["deflate"] }
