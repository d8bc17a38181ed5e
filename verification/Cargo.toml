[package]
name = "tg_collector"
version = "0.1.0"
edition = "2021"
publish = false

[dependencies]
rtdlib = "=1.6.6"
telegram-client = "=1.6.6"
tokio = { version = "=0.2.25", features = ["full"] }
futures = "=0.3.34"
log = "=0.4.35"
async-trait = "=0.1.92"
dyn-clone = "=1.0.20"
