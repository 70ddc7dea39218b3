[package]
name = "rust_network_project"
version = "0.1.0"
edition = "2021"
publish = false

[dependencies]
bcrypt = "*"
serde = { version = "1", features = ["derive"] }
serde_json = "1"
tokio = { version = "1", features = ["full"] }
tokio-util = { version = "*", features = ["compat"] }
futures-util = { version = "*", features = ["sink"] }
axum = { version = "*", features = ["ws"] }
tiberius = { version = "*", default-features = false, features = ["tds73"] }
tokio-tungstenite = "*"
