[package]
name = "justlogs_aggregator"
version = "0.1.0"
edition = "2021"
publish = false

[dependencies]
anyhow = "1"
chrono = { version = "0.4", features = ["serde"] }
futures = "0.3"
jemalloc_pprof = "*"
poem = "*"
poem-openapi = { version = "*", features = ["chrono", "redoc"] }
reqwest = { version = "0.12", features = ["json"] }
serde = { version = "1", features = ["derive"] }
serde_json = "1"
thiserror = "*"
tikv-jemallocator = { version = "*", features = ["profiling", "unprefixed_malloc_on_supported_platforms"] }
tokio = { version = "1", features = ["macros", "rt-multi-thread"] }
