[package]
name = "rustful_service"
version = "0.1.0"
edition = "2021"
publish = false

[dependencies]
uuid = { version = "1", features = ["v4", "serde"] }
chrono = { version = "0.4", features = ["serde"] }
diesel = { version = "2", features = ["postgres", "r2d2", "uuid", "chrono"] }
salvo = { version = "*", features = ["cors", "logging"] }
tokio = { version = "1", features = ["macros", "rt-multi-thread"] }
dotenv = "0.15"
once_cell = "1"
serde = { version = "1", features = ["derive"] }
tracing-subscriber = "0.3"
