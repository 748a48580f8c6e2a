[package]
name = "typestats"
version = "0.1.0"
edition = "2021"
publish = false

[dependencies]
serde_json = "*"
structopt = "*"
prettytable-rs = "*"
log = "*"
env_logger = "*"
thiserror = "*"
tokio = { version = "*", features = ["macros", "rt-multi-thread"] }
