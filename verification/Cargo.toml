[package]
name = "meowdict"
version = "0.1.0"
edition = "2021"
publish = false

[dependencies]
anyhow = "1"
clap = { version = "3.2", features = ["cargo"] }
console = "=0.15.8"
dirs-next = "2"
futures = "0.3"
indexmap = { version = "1.9", features = ["serde"] }
lazy_static = "1"
opencc-rust = "1"
owo-colors = "3"
rand = "0.8"
reqwest = { version = "0.11", features = ["json"] }
rustyline = "9"
serde = { version = "1", features = ["derive"] }
serde_json = "1"
tokio = { version = "1", features = ["macros", "rt-multi-thread"] }
toml = "0.5"
