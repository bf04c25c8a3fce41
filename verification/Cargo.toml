[package]
name = "void_mod_manager"
version = "0.1.0"
edition = "2021"
publish = false

[dependencies]
zip = { version = "*", default-features = false, features = ["deflate"] }
reqwest = { version = "*", default-features = false, features = ["stream"] }
tokio = { version = "*", features = ["rt", "rt-multi-thread", "macros", "fs", "io-util", "sync"] }
futures-util = "*"
async-trait = "*"
dirs = "*"
steamlocate = "*"

[dev-dependencies]
tempfile = "*"
