[package]
name = "reqwest_scraper"
version = "0.1.0"
edition = "2021"
publish = false

[dependencies]
scraper = "*"
serde_json = "*"
jsonpath_lib = "*"
encoding_rs = "*"
libxml = "*"
reqwest = { version = "*", default-features = false }
tokio = { version = "*", features = ["rt", "sync", "macros"] }
mime = "*"
serde = "*"
serde_path_to_error = "*"
