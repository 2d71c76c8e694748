[package]
name = "craft_model"
version = "0.1.0"
edition = "2021"
publish = false

[dependencies]
sea-orm = { version = "*", default-features = false, features = ["macros"] }
serde = { version = "*", features = ["derive"] }
