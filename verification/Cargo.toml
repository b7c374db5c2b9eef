[package]
name = "checkers"
version = "0.1.0"
edition = "2021"
publish = false

[dependencies]
crossterm = "*"
ratatui = "*"
genai = "*"
tokio = { version = "1", features = ["rt-multi-thread", "macros"] }
dotenv = "*"
thiserror = "*"
reqwest = { version = "*", features = ["json"] }
serde = { version = "*", features = ["derive"] }
