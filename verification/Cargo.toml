[package]
name = "toolgate"
version = "0.1.0"
edition = "2021"
publish = false

[dependencies]
sha2 = "0.10"
serde = { version = "1", features = ["derive"] }
serde_json = "1"
toml = "*"
clap = { version = "4", features = ["derive"] }
anyhow = "1"
thiserror = "*"
libc = "0.2"
tokio = { version = "1", features = ["macros", "rt-multi-thread", "io-std", "net", "io-util"] }
rmcp = { version = "*", features = ["server", "macros", "transport-io"] }
reqwest = { version = "0.12", default-features = false, features = ["json", "rustls-tls"] }
