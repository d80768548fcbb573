[package]
name = "blend2d_bench"
version = "0.1.0"
edition = "2021"
publish = false

[dependencies]
anyhow = "1"
clap = { version = "4", features = ["derive"] }
owo-colors = "4"
rand = "0.9"
serde = { version = "1", features = ["derive"] }
serde_json = "1"
vello_common = "*"
vello_cpu = "*"
