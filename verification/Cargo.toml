[package]
name = "hc_turn_based_game"
version = "0.1.0"
edition = "2021"
publish = false

[dependencies]
chrono = { version = "0.4", features = ["serde"] }
hdk = "*"
holo_hash = "*"
serde = { version = "1", features = ["derive"] }
