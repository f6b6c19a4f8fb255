[package]
name = "htwk_calendar"
version = "0.1.0"
edition = "2021"
publish = false

[dependencies]
time = { version = "=0.3.55", features = ["parsing"] }
htmlize = { version = "=1.1.0", features = ["unescape"] }
axum = "=0.6.20"
tokio = { version = "=1.53.2", features = ["rt-multi-thread", "macros", "sync", "net", "time"] }
reqwest = { version = "=0.11.27", default-features = false }
serde = { version = "=1.0.229", features = ["derive"] }
serde_repr = "=0.1.21"
quick-xml = { version = "=0.31.0", features = ["serialize"] }
scraper = "=0.13.0"
table-extract = "=0.2.3"
tower-http = { version = "=0.4.4", features = ["trace", "cors", "fs"] }
tracing = "=0.1.44"
tracing-subscriber = "=0.3.23"
once_cell = "=1.21.4"
dotenvy = "=0.15.7"
envy = "=0.4.2"
color-eyre = "=0.6.5"
