[package]
name = "tork_core"
version = "0.1.0"
edition = "2021"
publish = false

[dependencies]
http = "=1.5.0"
matchit = "=0.8.6"
ipnet = "=2.12.2"
infer = "=0.22.0"
mime = "=0.3.17"
uuid = { version = "=1.29.0", features = ["v4"] }
flate2 = "=1.1.10"
garde = { version = "=0.23.0", features = ["derive"] }
serde = { version = "=1.0.229", features = ["derive"] }
serde_json = "=1.0.154"
time = { version = "=0.3.55", features = ["formatting"] }
tokio = { version = "=1.54.1", features = ["sync", "time", "rt", "macros"] }
bytes = "=1.12.1"
tracing = "=0.1.44"
multer = "3"
tempfile = "3"
futures-util = "=0.3.34"
serde_urlencoded = "0.7"
