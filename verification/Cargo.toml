[package]
name = "aiav_core"
version = "0.1.0"
edition = "2021"
publish = false

[dependencies]
sha2 = "=0.11.0"
uuid = { version = "=1.27.0", features = ["v4"] }
url = "=2.5.8"
yara = { version = "=0.32.0", default-features = false, features = ["vendored", "bundled-4_5_5"] }
serde = { version = "*", features = ["derive"] }
serde_json = "*"
toml = "*"
anyhow = "*"
walkdir = "*"
notify = "*"
axum = "*"
tokio = { version = "*", features = ["full"] }
reqwest = { version = "*", default-features = false, features = ["json"] }
