[package]
name = "rbx_product"
version = "0.1.0"
edition = "2021"
publish = false

[dependencies]
async-trait = "0.1"
clap = { version = "4", features = ["derive"] }
color-eyre = "0.6"
crossterm = { version = "*", features = ["event-stream"] }
dotenv = "0.15"
dyn-fmt = "*"
env_logger = "0.11"
futures = "0.3"
http = "1"
lazy_static = "1"
log = "0.4"
ratatui = "*"
regex = "1"
reqwest = { version = "0.12", default-features = false, features = ["json", "multipart", "rustls-tls"] }
reqwest-middleware = { version = "0.4", features = ["json", "multipart"] }
serde = { version = "1", features = ["derive"] }
tokio = { version = "1", features = ["full"] }
toml = "*"
toml_edit = "*"
