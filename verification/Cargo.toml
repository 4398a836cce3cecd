[package]
name = "mayheap"
version = "0.1.0"
edition = "2021"
publish = false

[dependencies]
heapless = "=0.8.0"
portable-atomic = "=1.15.0"
paste = "=1.0.15"
serde = { version = "=1.0.229", features = ["derive"] }
