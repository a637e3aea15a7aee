[package]
name = "mod_counter"
version = "0.1.0"
edition = "2021"
publish = false

[dependencies]
serde_json = "=1.0.151"
serde = "=1.0.229"
serde_derive = "=1.0.229"
indexmap = { version = "=2.14.2", features = ["serde"] }
reqwest = { version = "=0.13.5", default-features = false, features = ["query"] }
tokio = { version = "=1.53.2", default-features = false, features = ["macros", "rt"] }
colorize = "=0.1.0"
