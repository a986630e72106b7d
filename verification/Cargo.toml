[package]
name = "gls"
version = "0.1.0"
edition = "2021"
publish = false

[dependencies]
clap = { version = "*", features = ["derive"] }
colored = "*"
futures = "*"
reqwest = { version = "*", default-features = false, features = ["json"] }
serde = "*"
serde_derive = "*"
tokio = { version = "*", features = ["macros", "rt-multi-thread"] }
