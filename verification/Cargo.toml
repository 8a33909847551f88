[package]
name = "martian"
version = "0.1.0"
edition = "2021"
publish = false

[dependencies]
anyhow = "1"
backtrace = "0.3"
csv = "1"
fern = "0.6"
log = "0.4"
serde = { version = "1", features = ["derive"] }
time = { version = "0.3", features = ["formatting", "local-offset"] }
