[package]
name = "xmedia_bot"
version = "0.1.0"
edition = "2021"
publish = false

[dependencies]
bytes = "=1.12.1"
dotenv = "=0.15.0"
dptree = "=0.5.1"
fast_image_resize = "=5.5.0"
html-escape = "=0.2.15"
jpeg-encoder = "=0.7.1"
log = "=0.4.35"
parking_lot = "=0.12.5"
png = "=0.18.1"
pretty_env_logger = "=0.5.0"
rand = "=0.8.8"
rusqlite = { version = "=0.41.1", features = ["bundled"] }
serde = { version = "=1.0.229", features = ["derive"] }
serde_json = "=1.0.154"
# A dependency of teloxide, held to the last release that builds with Rust 1.95.
takecell = "=0.1.1"
teloxide = { version = "=0.17.0", features = ["macros", "webhooks-axum", "ctrlc_handler"] }
tempfile = "=3.27.0"
tokio = { version = "=1.54.1", features = ["full"] }
url = "=2.5.8"
zune-jpeg = "=0.5.15"
