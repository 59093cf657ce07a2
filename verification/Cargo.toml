[package]
name = "ersatztv"
version = "0.1.0"
edition = "2021"
publish = false

[dependencies]
log = "0.4"
serde = { version = "1", features = ["derive"] }
serde_json = "1"
simple-expand-tilde = "*"
tempfile = "3"
time = { version = "0.3", features = ["formatting", "local-offset", "parsing", "serde-well-known"] }
tokio = { version = "1", features = ["fs", "macros", "process", "rt", "sync", "time"] }
uuid = { version = "1", features = ["v4"] }
