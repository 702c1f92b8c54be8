[package]
name = "rusty_mvt"
version = "0.1.0"
edition = "2021"
publish = false

[dependencies]
anyhow = "1"
axum = "0.6"
dotenv = "0.15"
geo-types = "0.7"
geojson = "0.24"
serde = { version = "1", features = ["derive"] }
serde_json = "1"
speedicycle = "*"
sqlx = { version = "0.7", default-features = false, features = ["runtime-tokio", "postgres", "macros"] }
tokio = { version = "1", features = ["rt-multi-thread", "macros"] }
