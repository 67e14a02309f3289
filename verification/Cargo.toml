[package]
name = "netaccess"
version = "0.1.0"
edition = "2021"
publish = false

[dependencies]
anyhow = "*"
clap = { version = "*", features = ["derive"] }
crossterm = "0.25"
directories = "*"
keyring = { version = "*", features = ["linux-native"] }
local-ip-address = "*"
reqwest = { version = "*", default-features = false, features = ["cookies", "rustls-tls"] }
rpassword = "*"
scraper = "*"
tokio = { version = "*", features = ["macros", "rt", "rt-multi-thread", "sync", "time"] }
tokio-util = "*"
tui = { version = "*", features = ["crossterm"] }
