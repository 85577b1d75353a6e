[package]
name = "room_directory"
version = "0.1.0"
edition = "2021"
publish = false

[dependencies]
iron = "*"
router = "*"
serde = { version = "1", features = ["derive"] }
serde_json = "1"
