[package]
name = "cli_chat"
version = "0.1.0"
edition = "2021"
publish = false

[dependencies]
serde_json = "1"
serde = { version = "1", features = ["derive"] }
anyhow = "1"
reqwest = { version = "*", default-features = false, features = ["json"] }
tokio = { version = "1", features = ["macros", "rt-multi-thread"] }
colored = "*"
spinners = "*"
chrono = { version = "*", default-features = false, features = ["clock"] }
dirs = "*"
dotenv = "*"
