[package]
name = "ostk"
version = "0.1.0"
edition = "2021"
publish = false

[dependencies]
chrono = "*"
configparser = "*"
dirs = "*"
opensky = "*"
reqwest = { version = "*", default-features = false, features = ["json"] }
serde = { version = "*", features = ["derive"] }
serde_json = "*"
thiserror = "*"
tokio = { version = "*", features = ["rt-multi-thread", "macros", "sync", "time"] }
