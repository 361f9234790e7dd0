[package]
name = "openaiclient"
version = "0.1.0"
edition = "2021"
publish = false

[dependencies]
serde_json = "*"
base64 = "*"
ignore = "*"
serde = { version = "*", features = ["derive"] }
serde_derive = "*"
clap = { version = "*", features = ["derive"] }
tokio = { version = "*", features = ["rt", "rt-multi-thread", "macros", "process", "io-util", "time"] }
reqwest = { version = "*", default-features = false }
url = "*"
thiserror = "*"
libc = "*"
regex = "*"
