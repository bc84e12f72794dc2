[package]
name = "badge_canvas"
version = "0.1.0"
edition = "2021"
publish = false

[dependencies]
clap = { version = "=4.6.7", features = ["derive"] }
dxr_client = { version = "=0.8.0", default-features = false, features = ["reqwest"] }
env_logger = "=0.11.11"
hex = "=0.4.3"
image = "=0.25.10"
log = "=0.4.34"
num_cpus = "=1.17.0"
reqwest = { version = "=0.12.28", default-features = false, features = ["json"] }
scraper = "=0.27.0"
serde = { version = "=1.0.229", features = ["derive"] }
serde_json = "=1.0.151"
tokio = { version = "=1.53.2", features = ["rt-multi-thread", "macros", "sync"] }
