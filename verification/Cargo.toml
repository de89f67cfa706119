[package]
name = "speedrun_on_linux"
version = "0.1.0"
edition = "2021"
publish = false

[dependencies]
anyhow = "*"
clap = { version = "*", features = ["derive"] }
console = "*"
dialoguer = "*"
dirs = "*"
indicatif = "*"
reqwest = { version = "*", default-features = false, features = ["blocking"] }
serde = { version = "*", features = ["derive"] }
sysinfo = "*"
toml = "*"
zip = { version = "*", default-features = false, features = ["deflate"] }
