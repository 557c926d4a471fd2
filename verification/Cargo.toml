[package]
name = "waifu_pics"
version = "0.1.0"
edition = "2021"
publish = false

[dependencies]
colored = "*"
futures-util = "*"
humansize = "*"
reqwest = { version = "*", default-features = false, features = ["json", "stream"] }
term_size = "*"
tokio = { version = "*", features = ["macros", "rt-multi-thread", "fs", "time", "sync"] }
