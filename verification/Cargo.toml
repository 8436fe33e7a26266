[package]
name = "rich_darts"
version = "0.1.0"
edition = "2021"
publish = false

[dependencies]
dioxus = { version = "0.6", features = ["fullstack", "router"] }
dioxus-logger = "0.6"
diesel = { version = "2.2", features = ["sqlite", "returning_clauses_for_sqlite_3_35"] }
diesel_migrations = "2.2"
rusqlite = { version = "0.32", features = ["bundled"] }
dotenv = "0.15"
log = "0.4"
log4rs = "1.3"
once_cell = "1"
serde = { version = "1", features = ["derive"] }
tracing = "0.1"
web-sys = "0.3"
