[package]
name = "widgets"
version = "0.1.0"
edition = "2021"
publish = false

[dependencies]
serde = { version = "=1.0.229", features = ["derive"] }
serde_json = "=1.0.154"
embassy-time = { version = "=0.5.1", features = ["std"] }
embedded-graphics = "=0.8.2"
syn = { version = "=2.0.119", features = ["full"] }
wasmi = "=2.0.0"
littlefs2 = "=0.8.1"
log = "0.4"
u8g2-fonts = "*"
