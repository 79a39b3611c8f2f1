[package]
name = "kaf_cli"
version = "0.1.0"
edition = "2021"
publish = false

[dependencies]
regex = "1"
chardetng = "0.1"
encoding_rs = "0.8"
pulldown-cmark = { version = "0.13", default-features = false, features = ["html"] }
epub-builder = "*"
image = { version = "0.25", default-features = false, features = ["png", "jpeg", "gif", "webp", "bmp", "tiff"] }
clap = { version = "4", features = ["derive"] }
tokio = { version = "1", features = ["rt-multi-thread", "macros", "fs"] }
tracing = "0.1"
tracing-subscriber = { version = "0.3", features = ["env-filter"] }
serde = { version = "1", features = ["derive"] }
serde_yaml = "0.9"
serde_json = "1"
chrono = "0.4"
thiserror = "*"
zip = { version = "*", default-features = false }
once_cell = "1"
