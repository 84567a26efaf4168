[package]
name = "uspto"
version = "0.1.0"
edition = "2021"
publish = false

[dependencies]
quick-xml = "0.37"
regex = "1"
zip = { version = "0.6", default-features = false, features = ["deflate"] }
csv = "1"
serde = { version = "1", features = ["derive"] }
snafu = "0.8"
structopt = "0.3"
reqwest = { version = "0.12", default-features = false, features = ["blocking"] }
lazy_static = "1"
