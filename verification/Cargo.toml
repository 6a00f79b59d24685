[package]
name = "data_db"
version = "0.1.0"
edition = "2021"
publish = false

[dependencies]
anyhow = "1"
async-recursion = "*"
async-trait = "*"
chrono = { version = "0.4", default-features = false, features = ["alloc", "std"] }
once_cell = "*"
rusqlite = { version = "*", features = ["bundled"] }
serde = { version = "1", features = ["derive"] }
serde_json = "1"
sqlx = { version = "0.8", default-features = false, features = ["postgres", "runtime-tokio", "chrono", "json"] }
thiserror = "*"
