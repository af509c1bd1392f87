[package]
name = "bitpet"
version = "0.1.0"
edition = "2021"
publish = false

[dependencies]
async-trait = "*"
chrono = "*"
clap = { version = "*", features = ["derive"] }
colored = "*"
crossterm = "*"
ctrlc = "*"
dirs = "*"
http = "*"
open = "*"
rand = "*"
reqwest = { version = "*", default-features = false, features = ["json"] }
reqwest-middleware = "*"
serde = { version = "*", features = ["derive"] }
serde_json = "*"
sha2 = "*"
tokio = { version = "*", features = ["macros", "rt"] }
uuid = { version = "*", features = ["v4"] }
