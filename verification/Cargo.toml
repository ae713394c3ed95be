[package]
name = "mydtu_dktc"
version = "0.1.0"
edition = "2021"
publish = false

[dependencies]
base64 = "*"
openssl = "*"
toml = "*"
serde = { version = "*", features = ["derive"] }
reqwest = { version = "*", features = ["json"], default-features = false }
tokio = { version = "*", features = ["rt-multi-thread", "macros"] }
clap = "*"
