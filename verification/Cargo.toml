[package]
name = "lox_core"
version = "0.1.0"
edition = "2021"
publish = false

[dependencies]
hashbrown = "0.15"
miette = "7"
thiserror = "2"
clap = { version = "4", features = ["derive"] }
utf8-chars = "3"
rustc-hash = "2"
