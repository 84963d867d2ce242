[package]
name = "synsyu_core"
version = "0.1.0"
edition = "2021"
publish = false

[dependencies]
regex = "*"
sha2 = "*"
urlencoding = "*"
serde = { version = "*", features = ["derive"] }
serde_json = "*"
toml = "*"
chrono = "*"
clap = { version = "*", features = ["derive"] }
dirs = "*"
libc = "*"
tokio = { version = "*", features = ["rt-multi-thread", "macros", "process", "fs", "io-util"] }
reqwest = { version = "*", default-features = false, features = ["json"] }
