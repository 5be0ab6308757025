[package]
name = "haikulang"
version = "0.1.0"
edition = "2021"
publish = false

[dependencies]
la-arena = "=0.3.1"
ariadne = "=0.6.0"
clap = { version = "=4.6.7", features = ["derive"] }
rustyline = "=19.0.0"
