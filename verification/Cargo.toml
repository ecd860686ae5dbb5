[package]
name = "battle_core"
version = "0.1.0"
edition = "2021"
publish = false

[dependencies]
bounded-collections = { version = "=0.3.2", features = ["scale-codec"] }
log = "=0.4.34"
parity-scale-codec = { version = "=3.7.5", features = ["derive"] }
scale-info = { version = "=2.11.6", features = ["derive"] }
serde = { version = "=1.0.229", features = ["derive"] }
