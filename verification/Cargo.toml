[package]
name = "arena_fetch"
version = "0.1.0"
edition = "2021"
publish = false

[dependencies]
build_html = "*"
futures = "*"
reqwest = { version = "*", features = ["json"] }
serde = { version = "*", features = ["derive"] }
tokio = { version = "*", features = ["macros", "rt-multi-thread"] }
