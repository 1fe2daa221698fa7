[package]
name = "pup"
version = "0.1.0"
edition = "2021"
publish = false

[dependencies]
anyhow = "1"
arboard = { version = "3", default-features = false }
base64 = "0.21"
clap = { version = "4", features = ["derive"] }
colored = "2"
dirs = "5"
keyring = { version = "2", default-features = false }
rayon = "1"
reqwest = { version = "0.11", default-features = false, features = ["blocking", "rustls-tls"] }
serde = { version = "1", features = ["derive"] }
serde_json = "1"
termios = "0.3"
thiserror = "1"
toml = "0.7"

[dev-dependencies]
regex = "1"
