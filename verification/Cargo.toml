[package]
name = "donation_transparency"
version = "0.1.0"
edition = "2021"
publish = false

[dependencies]
sea-orm = { version = "1.1", default-features = false, features = ["macros", "sqlx-postgres", "runtime-tokio-rustls"] }
sqlx = { version = "0.8", default-features = false, features = ["derive"] }
serde = { version = "1", features = ["derive"] }
dotenv = "0.15"
log = "0.4"
