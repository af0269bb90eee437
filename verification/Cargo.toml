[package]
name = "schedule_watch"
version = "0.1.0"
edition = "2021"
publish = false

[dependencies]
calamine = "=0.23.1"
chrono = "=0.4.45"
log = "=0.4.34"
tokio = { version = "=1.54.1", features = ["macros", "rt-multi-thread", "time"] }
tracing = "=0.1.44"
tracing-appender = "=0.2.5"
tracing-subscriber = { version = "=0.3.23", features = ["env-filter"] }
