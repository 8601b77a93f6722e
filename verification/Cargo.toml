[package]
name = "prompt_gateway"
version = "0.1.0"
edition = "2021"
publish = false

[dependencies]
axum = "0.6"
ollama-rs = "*"
tokio = { version = "1", features = ["macros", "rt-multi-thread"] }
