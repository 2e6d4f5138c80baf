[package]
name = "notecrumbs"
version = "0.1.0"
edition = "2021"
publish = false

[dependencies]
html-escape = "*"
hex = "*"
nostr = "0.44"
pulldown-cmark = "*"
ammonia = "*"
serde_json = "*"
tokio = { version = "1", features = ["full"] }
hyper = { version = "1", features = ["full"] }
hyper-util = { version = "*", features = ["full"] }
http-body-util = "*"
http = "1"
bytes = "*"
nostrdb = "*"
nostr-sdk = "0.44"
dashmap = "*"
metrics = "0.21"
metrics-exporter-prometheus = "0.12"
tracing = "*"
tracing-subscriber = "*"
egui = "0.22"
egui_extras = "0.22"
image = "0.24"
reqwest = { version = "0.11", default-features = false, features = ["blocking"] }
