[package]
name = "token_store"
version = "0.1.0"
edition = "2021"
publish = false

[dependencies]
async-trait = "=0.1.92"
chrono = "=0.4.45"
dotenv = "=0.15.0"
reqwest = { version = "=0.12.28", default-features = false, features = ["rustls-tls"] }
serde_json = "=1.0.151"
tokio = { version = "=1.53.2", features = ["rt-multi-thread", "macros", "sync"] }
twitch-irc = { version = "=6.1.3", default-features = false, features = ["transport-tcp-rustls-webpki-roots", "refreshing-token-rustls-webpki-roots"] }
