[package]
name = "ruxlog_core"
version = "0.1.0"
edition = "2021"
publish = false

[dependencies]
serde_yaml = "*"
pulldown-cmark = "*"
ammonia = "*"
chrono = "*"
regex = "*"
