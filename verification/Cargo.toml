[package]
name = "tailwind_palette"
version = "0.1.0"
edition = "2021"
publish = false

[dependencies]
chroma-rust = "=0.1.6"
deltae = "=0.3.2"
rspc = "=0.1.4"
serde = { version = "=1.0.229", features = ["derive"] }
serde_json = "=1.0.154"
