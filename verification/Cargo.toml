[package]
name = "mini_redis_rs"
version = "0.1.0"
edition = "2021"
publish = false

[dependencies]
tokio = { version = "1", features = ["rt-multi-thread", "macros", "net", "io-util", "io-std", "sync", "fs"] }
async-trait = "0.1"
tokio-rustls = "0.24"
rustls-pemfile = "1"
webpki-roots = "0.25"

[dev-dependencies]
regex = "1"
