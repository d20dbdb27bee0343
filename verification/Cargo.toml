[package]
name = "time_shell"
version = "0.1.0"
edition = "2021"
publish = false

[dependencies]
caps = "0.5"
chrono = "0.4"
nix = "*"
actix-web = { version = "4", default-features = false, features = ["macros"] }
