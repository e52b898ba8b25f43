[package]
name = "planner"
version = "0.1.0"
edition = "2021"
publish = false

[dependencies]
chrono = { version = "0.4", features = ["serde"] }
uuid = { version = "1", features = ["v7", "serde"] }
serde = { version = "1", features = ["derive"] }
dioxus = { version = "*", features = ["fullstack"] }
dioxus-primitives = "*"
diesel = { version = "2", features = ["sqlite", "chrono", "returning_clauses_for_sqlite_3_35"] }
diesel-async = { version = "*", features = ["sqlite", "sync-connection-wrapper"] }
dotenvy = "0.15"
tokio = { version = "1", features = ["sync"] }
