[package]
name = "rakuyomi"
version = "0.1.0"
edition = "2021"
publish = false

[dependencies]
anyhow = "1"
axum = { version = "0.8", default-features = false, features = ["json", "query", "tokio", "http1"] }
base64 = "0.22"
chrono = "0.4"
chrono-tz = "0.10"
futures = "0.3"
humansize = "2"
image = { version = "0.25", default-features = false, features = ["jpeg", "png", "gif", "webp", "bmp"] }
log = "0.4"
mozjpeg = { version = "0.10", default-features = false }
nix = { version = "0.29", features = ["mount", "fs"] }
num_enum = "0.7"
reqwest = { version = "0.12", default-features = false }
sanitize-filename = "0.6"
serde = { version = "1", features = ["derive"] }
serde_json = "1"
sha2 = "0.10"
size = "*"
sqlx = { version = "0.8", default-features = false, features = ["sqlite", "runtime-tokio", "migrate"] }
tempfile = "3"
tokio = { version = "1", features = ["fs", "sync", "time", "rt", "macros"] }
tokio-util = "0.7"
url = "2"
walkdir = "2"
