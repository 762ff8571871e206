[package]
name = "habit_tracker"
version = "0.1.0"
edition = "2021"
publish = false

[dependencies]
chrono = { version = "0.4", features = ["serde"] }
plotters = { version = "0.3", default-features = false, features = ["bitmap_backend", "bitmap_encoder"] }
serde = { version = "1", features = ["derive"] }
serde_json = "1"
