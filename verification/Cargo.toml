[package]
name = "fds"
version = "0.1.0"
edition = "2021"
publish = false

[dependencies]
url = "2"
serde = { version = "1", features = ["derive"] }
serde_json = "1"
toml = "0.5"
dirs = "5"
clap = "2"
reqwest = { version = "0.11", default-features = false, features = ["json"] }
tokio = { version = "1", features = ["macros", "rt-multi-thread"] }
futures = "0.3"
prettytable-rs = { version = "0.10", default-features = false }

[dev-dependencies]
regex = "1"
