[package]
name = "anonbot"
version = "0.1.0"
edition = "2021"
publish = false

[dependencies]
aes-gcm = "=0.10.3"
sha2 = "=0.10.9"
hex = "=0.4.3"
rand = "=0.8.8"
bincode = "=1.3.3"
serde = { version = "=1.0.229", features = ["derive"] }
tokio = { version = "=1.54.1", features = ["full"] }
dotenv = "=0.15.0"
env_logger = "=0.11.11"
teloxide = { version = "=0.13.0", default-features = false, features = ["rustls", "ctrlc_handler"] }
takecell = "=0.1.1"
