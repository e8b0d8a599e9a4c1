[package]
name = "archive_ledger"
version = "0.1.0"
edition = "2021"
publish = false

[dependencies]
diffy-fork-filenames = "=0.4.0"
num-format = "=0.4.4"
sha2 = "=0.10.9"
futures = "0.3"
handlebars = "4"
log = "0.4"
serde = { version = "1", features = ["derive"] }
serde_json = "1"
tokio = { version = "1", features = ["fs", "io-util", "macros", "process", "rt-multi-thread"] }
tokio-tar = "0.3"
warp = "0.3"
