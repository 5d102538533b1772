[package]
name = "repost_detector"
version = "0.1.0"
edition = "2021"
publish = false

[dependencies]
image = "=0.23.14"
substring = "=1.4.5"
serde = { version = "=1.0.229", features = ["derive"] }
serde_json = "=1.0.154"
teloxide = { version = "=0.5.3", default-features = false, features = ["rustls", "ctrlc_handler", "auto-send"] }
tokio = { version = "=1.54.1", features = ["rt-multi-thread", "macros", "fs"] }
# teloxide-core 0.3 uses the codec module of tokio-util 0.6 without asking for
# the feature that holds it, so it is switched on here.
tokio-util = { version = "=0.6.10", features = ["codec"] }
log = "=0.4.34"
color-backtrace = "=0.5.1"
# The logger that teloxide sets up for its bots.
pretty_env_logger = "=0.4.0"
