[package]
name = "yakshop"
version = "0.1.0"
edition = "2021"
publish = false

[dependencies]
clap = { version = "4", features = ["derive"] }
serde = { version = "1", features = ["derive"] }
serde-xml-rs = "0.6"
tokio = { version = "1", features = ["macros", "rt-multi-thread"] }
warp = "0.3"

[dev-dependencies]
approx = "0.5"
