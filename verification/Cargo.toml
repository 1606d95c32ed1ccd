[package]
name = "minishell"
version = "0.1.0"
edition = "2021"
publish = false

[dependencies]
rustyline = { version = "*", features = ["derive"] }
tokio = { version = "*", features = ["rt", "macros", "process", "net", "io-util"] }
