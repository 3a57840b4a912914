[package]
name = "spawn_activator"
version = "0.1.0"
edition = "2021"
publish = false

[dependencies]
anyhow = "*"
async-nats = "*"
clap = { version = "*", features = ["derive"] }
env_logger = "*"
tokio = { version = "*", features = ["macros", "rt-multi-thread"] }

[dev-dependencies]
prost = "*"
prost-types = "*"
