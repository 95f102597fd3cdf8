[package]
name = "nuphus"
version = "0.1.0"
edition = "2021"
publish = false

[dependencies]
async-trait = "0.1"
candle-core = "*"
candle-nn = "*"
candle-transformers = "*"
chrono = "0.4"
dirs = "*"
enigo = { version = "*", default-features = false, features = ["x11rb"] }
image = { version = "0.25", default-features = false, features = ["png", "jpeg", "bmp"] }
reqwest = { version = "0.12", default-features = false, features = ["json", "blocking"] }
rusqlite = { version = "*", features = ["bundled"] }
serde = { version = "1", features = ["derive"] }
serde_json = "1"
thiserror = "1"
tokenizers = { version = "*", default-features = false, features = ["fancy-regex"] }
tokio = { version = "1", features = ["sync", "time", "rt", "macros"] }
tracing = "0.1"
uuid = { version = "1", features = ["v4"] }
