[package]
name = "pankosmia_web"
version = "0.1.0"
edition = "2021"
publish = false

[dependencies]
serde = { version = "1", features = ["derive"] }
serde_json = "1"
regex = "1"
md5 = "*"
uuid = { version = "1", features = ["v4"] }
chrono = "0.4"
time = { version = "0.3", features = ["formatting", "parsing"] }
whoami = "*"
git2 = { version = "*", default-features = false }
copy_dir = "*"
walkdir = "2"
ffmpeg-sidecar = "*"
ureq = { version = "2", features = ["json"] }
rocket = { version = "0.5", features = ["json"] }
tokio = { version = "1", features = ["rt-multi-thread"] }
