[package]
name = "dot001"
version = "0.1.0"
edition = "2021"
publish = false

[dependencies]
ahash = "0.8"
twox-hash = "=2.1.5"
zstd = "=0.14.3"
colored = "=3.1.1"
chrono = "=0.4.45"
clap = { version = "=4.6.7", features = ["derive"] }
env_logger = "=0.11.11"
log = "=0.4.35"
serde = { version = "=1.0.229", features = ["derive"] }
serde_json = "=1.0.154"
text_trees = "=0.1.2"
tokio = { version = "=1.54.1", features = ["rt-multi-thread", "macros", "sync", "time"] }
async-trait = "=0.1.92"
once_cell = "=1.21.4"
pathdiff = "=0.2.3"
thiserror = "=2.0.21"
