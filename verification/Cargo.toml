[package]
name = "rebuild_dispatch"
version = "0.1.0"
edition = "2021"
publish = false

[dependencies]
url = "2"
chrono = { version = "0.4", default-features = false, features = ["clock", "std"] }
tempfile = "3"
reqwest = { version = "0.12", default-features = false, features = ["blocking"] }
actix-web = { version = "4", default-features = false, features = ["macros"] }
serde = { version = "1", features = ["derive"] }
