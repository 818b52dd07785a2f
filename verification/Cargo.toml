[package]
name = "fiyat_arama"
version = "0.1.0"
edition = "2021"
publish = false

[dependencies]
scraper = "=0.29.0"
serde_json = { version = "=1.0.154", features = ["raw_value"] }
url = "=2.5.8"
shlex = "=1.3.0"
clap = { version = "=4.6.7", features = ["derive"] }
comfy-table = "=7.2.2"
indicatif = "=0.17.11"
inquire = "=0.9.4"
reqwest = { version = "=0.12.28", default-features = false, features = ["rustls-tls"] }
rustyline = "=19.0.0"
tokio = { version = "=1.54.1", features = ["macros", "rt-multi-thread"] }
