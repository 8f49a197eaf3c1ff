[package]
name = "zotero_csv_merge"
version = "0.1.0"
edition = "2021"
publish = false

[dependencies]
csv = "1"
dotenvy = "0.15"
reqwest = { version = "0.12", features = ["json"] }
serde = { version = "1", features = ["derive"] }
tokio = { version = "1", features = ["macros", "rt-multi-thread"] }
