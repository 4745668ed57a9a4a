[package]
name = "oicana_server"
version = "0.1.0"
edition = "2021"
publish = false

[dependencies]
dashmap = "*"
oicana = "*"
oicana_export = "*"
oicana_files = "*"
oicana_input = "*"
oicana_world = "*"
serde = { version = "*", features = ["derive"] }
serde_json = "*"
uuid = { version = "*", features = ["v4", "serde"] }
