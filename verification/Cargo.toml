[package]
name = "duralumin"
version = "0.2.0"
edition = "2021"
publish = false

[dependencies]
anyhow = "1"
arboard = { version = "3", default-features = false }
axum = { version = "0.8", default-features = false, features = ["http1", "query", "tokio"] }
bytesize = "2"
chrono = "0.4"
clap = { version = "4", features = ["derive", "env"] }
clap_complete = "4"
comfy-table = { version = "7", default-features = false, features = ["tty"] }
crossterm = "0.28"
feed-rs = "2"
hex = "0.4"
humantime = "2"
lofty = "0.22"
owo-colors = "4"
ratatui = "0.29"
regex = "1"
reqwest = { version = "0.12", default-features = false, features = ["rustls-tls", "stream"] }
rustls = { version = "0.23", default-features = false, features = ["ring", "std"] }
serde = { version = "1", features = ["derive"] }
serde_json = "1"
sha2 = "0.10"
sqlx = { version = "0.8", default-features = false, features = ["sqlite", "runtime-tokio", "chrono"] }
thiserror = "2"
tokio = { version = "1", features = ["rt-multi-thread", "macros", "fs", "io-util", "net", "sync", "time"] }
toml = "0.8"
tower = { version = "0.5", features = ["util"] }
tower-http = { version = "0.6", features = ["fs"] }
tracing = "0.1"
tracing-subscriber = { version = "0.3", features = ["env-filter", "json"] }
url = "2"
