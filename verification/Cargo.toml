[package]
name = "column_mapping_lab"
version = "0.1.0"
edition = "2021"
publish = false

[dependencies]
csv = "=1.4.0"
deltalake = { version = "=0.31.1", features = ["datafusion"] }
serde_json = "=1.0.154"
tokio = { version = "1", features = ["macros", "rt-multi-thread"] }
url = "=2.5.8"
