[package]
name = "desmonic"
version = "0.1.0"
edition = "2021"
publish = false

[dependencies]
clap = { version = "4", features = ["derive", "cargo"] }
clap-cargo = "*"
convert_case = "*"
lalrpop-util = { version = "*", features = ["lexer"] }
serde = { version = "1", features = ["derive"] }
serde_json = "1"
