[package]
name = "brainrot_tg_llm_rewrite"
version = "0.1.0"
edition = "2021"
publish = false

[dependencies]
anyhow = "=1.0.104"
async-openai = { version = "=0.42.2", features = ["responses"] }
clap = { version = "=4.6.7", features = ["derive"] }
grammers-client = "=0.10.0"
grammers-mtsender = "=0.10.0"
grammers-session = "=0.10.0"
notify = "=8.2.1"
reqwest = { version = "=0.13.5", default-features = false, features = ["rustls"] }
serde = { version = "=1.0.229", features = ["derive"] }
tokio = { version = "=1.54.1", features = ["macros", "rt-multi-thread", "signal", "sync", "time"] }
toml = "=1.1.8"
tracing = "=0.1.44"
tracing-log = "=0.2.0"
tracing-subscriber = { version = "=0.3.23", features = ["env-filter"] }
