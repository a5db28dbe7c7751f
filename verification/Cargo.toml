[package]
name = "crabtime"
version = "0.1.0"
edition = "2021"
publish = false

[dependencies]
toml = "*"
proc-macro2 = { version = "1", features = ["span-locations"] }
syn = { version = "2", features = ["full"] }
quote = "1"
