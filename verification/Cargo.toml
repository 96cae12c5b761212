[package]
name = "hackernews_tim"
version = "0.1.0"
edition = "2021"
publish = false

[dependencies]
html-escape = "=0.3.0"
regex = "=1.13.1"
url = "=2.5.8"
cursive = { version = "=0.21.1", default-features = false, features = ["crossterm-backend"] }
serde = { version = "=1.0.229", features = ["derive"] }
serde_json = "=1.0.154"
toml = "=1.1.8"
toml_edit = "=0.25.17"
anyhow = "=1.0.104"
ureq = { version = "=2.12.1", default-features = false }
dirs-next = "=2.0.0"
rpassword = "=7.5.4"
html5ever = "=0.27.0"
markup5ever_rcdom = "=0.3.0"
comfy-table = "=8.0.1"
clap = { version = "=4.6.7", features = ["derive"] }
readable-readability = "=0.4.0"
crossbeam-channel = "=0.5.17"
