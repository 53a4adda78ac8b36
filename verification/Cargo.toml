[package]
name = "wiki_storage"
version = "0.1.0"
edition = "2021"
publish = false

[dependencies]
serde = { version = "1", features = ["derive"] }
serde_json = "1"
quick-xml = "*"
chrono = "0.4"
url = "2"
convert_case = "*"
infer = "*"
anyhow = "1"
figment = { version = "0.10", features = ["toml", "env"] }
tracing = "0.1"
tracing-subscriber = { version = "0.3", features = ["env-filter"] }
tracing-appender = "0.2"
markdown = "*"
serde_yml = "*"

[dev-dependencies]
serde_json = "1"
