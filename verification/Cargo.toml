[package]
name = "pagelist"
version = "0.1.0"
edition = "2021"
publish = false

[dependencies]
azure_core = "0.21"
azure_storage = "0.21"
azure_storage_blobs = "0.21"
futures = "0.3"
tokio = { version = "1", features = ["macros", "rt-multi-thread"] }
