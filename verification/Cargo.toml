[package]
name = "bartender"
version = "0.1.0"
edition = "2021"
publish = false

[dependencies]
serde = { version = "1", features = ["derive"] }
serde_json = "1"
uuid = { version = "1", features = ["v4", "serde"] }
chrono = { version = "0.4", features = ["serde"] }
diesel = { version = "2", features = ["postgres", "r2d2", "uuid", "chrono"] }
actix-web = { version = "4", default-features = false, features = ["macros"] }
openai_api_rust = "*"
tracing = "0.1"
reqwest = { version = "0.11", default-features = false, features = ["json"] }
alcoholic_jwt = "*"
