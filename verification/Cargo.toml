[package]
name = "chat_cli"
version = "0.1.0"
edition = "2021"
publish = false

[dependencies]
jsonwebtoken = { version = "=11.1.0", default-features = false, features = ["rust_crypto"] }
serde_json = "=1.0.151"
serde = { version = "=1.0.229", features = ["derive"] }
reqwest = { version = "=0.13.5", default-features = false, features = ["json", "blocking", "stream"] }
tokio = { version = "=1.53.2", features = ["macros", "rt-multi-thread", "io-std", "io-util", "time"] }
clap = { version = "=4.6.7", features = ["derive"] }
dialoguer = "=0.12.0"
futures = "=0.3.34"
indexmap = "=2.14.2"
crossterm = "=0.29.0"
