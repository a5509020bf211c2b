[package]
name = "tsticker"
version = "0.1.0"
edition = "2021"
publish = false

[dependencies]
clap = { version = "4", features = ["derive"] }
clap_derive = "4"
console = "0.15"
dialoguer = "0.11"
dotenv = "0.15"
emojis = "*"
futures = "0.3"
futures-util = "0.3"
human-panic = "2"
indicatif = "0.17"
log = "0.4"
reqwest = { version = "0.12", features = ["stream"] }
serde = { version = "1", features = ["derive"] }
serde_json = "1"
thiserror = "1"
tokio = { version = "1", features = ["full"] }
