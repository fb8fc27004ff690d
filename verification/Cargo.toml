[package]
name = "vocal"
version = "0.1.0"
edition = "2021"
publish = false

[dependencies]
clap = { version = "*", features = ["derive"] }
confy = "*"
crossterm = "*"
log = "*"
rodio = "*"
serde = { version = "*", features = ["derive"] }
tui = "*"
