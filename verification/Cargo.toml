[package]
name = "rsl"
version = "0.1.0"
edition = "2021"
publish = false

[dependencies]
directories = "*"
rand = "*"
serde = { version = "*", features = ["derive"] }
serde_json = "*"
tokio = { version = "*", features = ["fs", "io-util", "macros", "process", "rt-multi-thread"] }
reqwest = { version = "*", default-features = false }
zip = { version = "*", default-features = false }
