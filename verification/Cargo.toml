[package]
name = "cardcrawl"
version = "0.1.0"
edition = "2021"
publish = false

[dependencies]
html-escape = "*"
clap = { version = "*", features = ["derive"] }
tokio = { version = "*", features = ["rt-multi-thread", "macros"] }
reqwest = { version = "*", default-features = false }
sqlx = { version = "*", default-features = false, features = ["postgres", "runtime-tokio"] }
serde = { version = "*", features = ["derive"] }
serde_json = "*"
csv = "*"
url = "*"
