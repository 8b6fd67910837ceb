[package]
name = "cw_storage"
version = "0.1.0"
edition = "2021"
publish = false

[dependencies]
cosmwasm-std = "0.13"
named_type = "0.2"
named_type_derive = "0.2"
schemars = "0.7"
serde = { version = "1", features = ["derive"] }
snafu = "0.6"
