[package]
name = "bws"
version = "0.1.0"
edition = "2021"
publish = false

[dependencies]
dotenv = "0.15"
futures = "0.3"
hyper = { version = "0.14", features = ["client", "http1", "runtime", "tcp"] }
iron = "0.6"
log = "0.4"
logger = "0.4"
mount = "0.4"
random = "*"
router = "0.6"
serde = { version = "1", features = ["derive"] }
serde_json = "1"
simplelog = "*"
tokio = { version = "1", features = ["rt", "time"] }
ws = "0.9"
