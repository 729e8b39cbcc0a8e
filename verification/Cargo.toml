[package]
name = "chart_drift"
version = "0.1.0"
edition = "2021"
publish = false

[dependencies]
version-compare = "0.2"
clap = { version = "4", features = ["derive", "env"] }
clap_complete = "4"
env_logger = "*"
handlebars = "*"
log = "0.4"
serde = { version = "1", features = ["derive"] }
serde_json = "1"
serde_yaml = "0.9"
tabled = "*"
