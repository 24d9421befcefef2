[package]
name = "minicloze"
version = "0.1.0"
edition = "2021"
publish = false

[dependencies]
levenshtein = "*"
rand = "*"
minreq = "*"
serde = { version = "*", features = ["derive"] }
serde_json = "*"
webbrowser = "*"
