[package]
name = "club_bot"
version = "0.1.0"
edition = "2021"
publish = false

[dependencies]
chrono = "=0.4.45"
rand = "=0.8.8"
uuid = { version = "=1.29.0", features = ["v4", "serde"] }
serde = { version = "=1.0.229", features = ["derive"] }
serde_json = "=1.0.154"
reqwest = { version = "=0.11.27", features = ["json"] }
tokio = { version = "=1.54.1", features = ["full"] }
tokio-postgres = { version = "=0.7.18", features = ["with-uuid-1", "with-chrono-0_4"] }
bb8-postgres = { version = "=0.8.1", features = ["with-uuid-1", "with-chrono-0_4"] }
async-trait = "=0.1.92"
teloxide = { version = "=0.12.2", features = ["macros"] }
takecell = "=0.1.1"
dotenv = "=0.15.0"
pretty_env_logger = "=0.5.0"
log = "=0.4.35"
lazy_static = "=1.5.1"
