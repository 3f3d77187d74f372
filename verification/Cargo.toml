[package]
name = "hetzner_dyndns"
version = "0.1.0"
edition = "2021"
publish = false

[dependencies]
base64 = "0.13"
chrono = "0.3"
clap = "2"
consistenttime = "*"
envy = "0.4"
error-chain = "0.12"
http = "*"
hyper = "0.12"
itertools = "*"
lettre = { version = "0.11", default-features = false, features = ["builder", "smtp-transport"] }
serde = "1"
serde_derive = "1"
slog = "2"
slog-async = "2"
slog-term = "2"
toml = "0.5"
url = "*"
