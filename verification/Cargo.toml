[package]
name = "laria"
version = "0.1.0"
edition = "2021"
publish = false

[dependencies]
lalrpop-util = "0.19"
snafu = "0.6"
