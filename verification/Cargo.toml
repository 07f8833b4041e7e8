[package]
name = "comment_watcher"
version = "0.1.0"
edition = "2021"
publish = false

[dependencies]
num_cpus = "1"
serde = { version = "1", features = ["derive"] }
serde_json = "1"
reqwest = { version = "0.12", default-features = false, features = ["blocking", "json"] }
chrono = "0.4"
lettre = { version = "0.11", default-features = false, features = ["smtp-transport", "builder"] }
job_scheduler = "1"
dotenv = "0.15"
env_logger = "0.11"
log = "0.4"
