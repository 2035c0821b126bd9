[package]
name = "blackhole"
version = "0.1.0"
edition = "2021"
publish = false

[dependencies]
rand = "=0.10.3"
sha2 = "=0.11.1"
time = { version = "=0.3.55", features = ["formatting", "macros"] }
cookie = "=0.18.2"
directories = "=6.0.0"
hostname = "=0.4.2"
serde = { version = "=1.0.229", features = ["derive"] }
serde_json = "=1.0.154"
toml = "=1.1.8"
clap = { version = "=4.6.7", features = ["derive"] }
tokio = { version = "=1.54.1", features = ["full"] }
anyhow = "=1.0.104"
async-trait = "=0.1.92"
tracing = "=0.1.44"
tracing-subscriber = { version = "=0.3.23", features = ["env-filter"] }
libc = "=0.2.191"
zeroize = "=1.9.1"
hickory-proto = { version = "=0.26.3", features = ["dnssec-ring"] }
hickory-resolver = { version = "=0.26.3", features = ["dnssec-ring", "https-ring", "tls-ring", "webpki-roots"] }
reqwest = { version = "=0.13.5", default-features = false, features = ["blocking", "rustls"] }
hudsucker = "=0.25.0"
ratatui = { version = "=0.30.2", default-features = false, features = ["crossterm"] }
crossterm = { version = "=0.29.0", features = ["event-stream"] }
futures-util = "=0.3.34"
