[package]
name = "tda_controller"
version = "0.1.0"
edition = "2021"
publish = false

[dependencies]
acdc = "=0.1.0"
anyhow = "1"
env_logger = "0.9"
figment = { version = "0.10", features = ["json"] }
futures = "0.3"
keri = "=0.8.2"
log = "0.4"
reqwest = { version = "0.11", default-features = false, features = ["json"] }
rmp = "=0.8.14"
said = "=0.4.3"
serde = { version = "1", features = ["derive"] }
serde_json = "=1.0.154"
structopt = "0.3"
tokio = { version = "1", features = ["macros", "rt-multi-thread", "sync"] }
url = { version = "=2.5.8", features = ["serde"] }
warp = { version = "0.3", default-features = false }
