[package]
name = "log2click"
version = "1.0.3"
edition = "2021"
publish = false

[dependencies]
async-trait = "0.1"
chrono = "0.4"
clap = { version = "4", features = ["derive"] }
clickhouse = "0.11"
config = { version = "0.14", default-features = false, features = ["yaml"] }
derive_builder = "0.20"
env_logger = "0.11"
log = "0.4"
rdkafka = "0.36"
regex = "1"
serde = { version = "1", features = ["derive"] }
serde_json = "1"
thiserror = "1"
tokio = { version = "1", features = ["macros", "rt-multi-thread", "time"] }
