[package]
name = "sitemap_crawler"
version = "0.1.0"
edition = "2021"
publish = false

[dependencies]
clap = { version = "4", features = ["derive"] }
color-eyre = "0.6"
reqwest = { version = "0.12", default-features = false, features = ["blocking", "cookies", "rustls-tls"] }
robotstxt = "0.3"
sitemap = "0.4"
tracing = "0.1"
tracing-error = "0.2"
tracing-subscriber = "0.3"
url = "2"
