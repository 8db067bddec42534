[package]
name = "watchtower"
version = "0.1.0"
edition = "2021"
publish = false

[dependencies]
chrono = "0.4"
maud = "*"
serde = { version = "1", features = ["derive"] }
serde_json = "1"
actix-web = "4"
rusqlite = { version = "0.32", features = ["bundled"] }
r2d2 = "0.8"
r2d2_sqlite = "0.25"
rusqlite_migration = "1.3"
tokio = { version = "1", features = ["full"] }
futures-util = "0.3"
oci-client = "*"
log = "0.4"
env_logger = "*"
anyhow = "1"
thiserror = "*"
prometheus = "*"
itertools = "*"
indoc = "2"
md5 = "*"
