[package]
name = "dankbot"
version = "0.1.0"
edition = "2021"
publish = false

[dependencies]
regex = "=1.13.1"
percent-encoding = "=2.3.2"
serenity = { version = "=0.12.5", default-features = false, features = ["builder", "cache", "client", "gateway", "model", "rustls_backend"] }
songbird = { version = "0.4", default-features = false, features = ["driver", "gateway", "serenity", "rustls"] }
tokio = { version = "=1.54.1", features = ["macros", "rt-multi-thread", "sync"] }
anyhow = "=1.0.104"
