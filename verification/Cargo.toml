[package]
name = "supavoice"
version = "0.1.0"
edition = "2021"
publish = false

[dependencies]
anyhow = "=1.0.104"
byteorder = "=1.5.0"
candle-core = "*"
candle-nn = "*"
candle-transformers = "*"
cpal = "0.15"
directories = "=5.0.1"
futures-util = "0.3"
hound = "=3.5.1"
reqwest = { version = "0.12", features = ["json", "stream"] }
serde = { version = "=1.0.229", features = ["derive"] }
serde_json = "=1.0.154"
sha2 = "=0.10.9"
tokenizers = { version = "*", default-features = false, features = ["onig"] }
tokio = { version = "1", features = ["full"] }
