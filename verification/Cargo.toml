[package]
name = "okena"
version = "0.1.0"
edition = "2021"
publish = false

[dependencies]
serde_json = "1"
semver = "1"
base64 = "0.22"
sha2 = "0.10"
jiff = "0.2"
ttf-parser = "0.25"
image = { version = "0.25", default-features = false, features = ["png", "jpeg", "gif", "webp", "bmp", "tiff", "ico"] }
gix = { version = "*", default-features = false, features = ["sha1", "status", "revision", "blob-diff"] }
serde = { version = "1", features = ["derive"] }
reqwest = { version = "0.12", default-features = false, features = ["blocking", "json", "rustls-tls"] }
tokio = { version = "1", features = ["rt-multi-thread", "net", "time", "sync", "macros"] }
tokio-tungstenite = "0.26"
futures = "0.3"
async-channel = "2"
dirs = "6"
libc = "0.2"
usvg = { version = "0.45", default-features = false }
syntect = { version = "5", default-features = false, features = ["default-fancy"] }
