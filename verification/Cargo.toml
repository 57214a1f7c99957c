[package]
name = "page_events"
version = "0.1.0"
edition = "2021"
publish = false

[dependencies]
chrono = "=0.4.45"
serde_json = { version = "=1.0.154", features = ["preserve_order"] }
rocket = "=0.5.2"
rocket_db_pools = { version = "=0.2.0", features = ["sqlx_postgres"] }
