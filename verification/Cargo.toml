[package]
name = "addon_resolver"
version = "0.1.0"
edition = "2021"
publish = false

[dependencies]
select = "*"
chrono = "*"
reqwest = { version = "*", default-features = false, features = ["blocking"] }
