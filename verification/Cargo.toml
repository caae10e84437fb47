[package]
name = "webserver"
version = "0.1.0"
edition = "2021"
publish = false

[dependencies]
regex = "1"
mime_guess = "2"
comrak = { version = "0.12", default-features = false }
grass = { version = "0.11", default-features = false }
json = "0.12"
toml = "0.5"
serde = { version = "1", features = ["derive"] }
clap = "2"
colored = "2"
chrono = "0.4"
ctrlc = "3"
threadpool = "1"
