[package]
name = "hijacker2"
version = "0.1.0"
edition = "2021"
publish = false

[dependencies]
anyhow = "1"
bytemuck = "1"
clap = { version = "4", features = ["derive"] }
env_logger = "0.11"
log = "0.4"
pipewire = "0.9"
ringbuf = "0.4"
serde_json = "1"
symphonia = "0.5"
