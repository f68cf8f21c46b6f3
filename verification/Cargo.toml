[package]
name = "annoirc"
version = "0.1.0"
edition = "2021"
publish = false

[dependencies]
anyhow = "*"
chrono = "*"
clap = { version = "*", features = ["derive"] }
egg-mode = "*"
egg-mode-text = "*"
futures = "*"
governor = "*"
html-escape = "*"
ip_rfc = "*"
irc = "*"
iso8601-duration = "*"
itertools = "*"
lazy_static = "*"
lru_time_cache = "*"
mime = "*"
nonzero_ext = "*"
num-format = "*"
omdb = "*"
regex = "*"
reqwest = { version = "*", features = ["cookies", "json"] }
scraper = "*"
serde = { version = "*", features = ["derive"] }
slog = "*"
slog-async = "*"
slog-term = "*"
tokio = { version = "*", features = ["full"] }
tokio-stream = "*"
toml = "*"
unicode-segmentation = "*"
url = "*"
