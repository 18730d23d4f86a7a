[package]
name = "ambient_color"
version = "0.1.0"
edition = "2021"
publish = false

[dependencies]
image = { version = "=0.25.10", default-features = false }
log = "=0.4.34"
pretty_env_logger = "=0.5.0"
scrap = "=0.5.0"
tapo = "=0.7.17"
tokio = { version = "=1.54.1", features = ["macros", "rt-multi-thread", "time"] }
