[package]
name = "mcloving_controller_store"
version = "0.1.0"
edition = "2021"
publish = false

[dependencies]
sha2 = "0.10"
hex = "0.4"
aho-corasick = "1"
serde = { version = "1", features = ["derive"] }
serde_json = "1"
uuid = { version = "1", features = ["v4", "serde"] }
thiserror = "2"
sqlx = { version = "0.8", default-features = false, features = ["postgres", "runtime-tokio", "uuid", "json", "macros"] }

[dev-dependencies]
uuid = { version = "1", features = ["v4", "serde"] }
