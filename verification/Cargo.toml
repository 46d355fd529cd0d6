[package]
name = "todo_ai"
version = "0.1.0"
edition = "2021"
publish = false

[dependencies]
bcrypt = "=0.19.3"
chrono = "=0.4.45"
serde_json = "=1.0.151"
uuid = { version = "=1.27.0", features = ["v4"] }
serde = { version = "=1.0.229", features = ["derive"] }
reqwest = { version = "=0.13.5", default-features = false, features = ["json", "query"] }
tokio = { version = "=1.53.2", features = ["macros", "rt-multi-thread"] }
crossterm = "=0.29.0"
ratatui = "=0.30.2"
dirs = "=7.0.0"
dotenv = "=0.15.0"
env_logger = "=0.11.11"
log = "=0.4.34"
