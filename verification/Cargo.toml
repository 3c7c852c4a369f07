[package]
name = "visualacuity"
version = "0.1.0"
edition = "2021"
publish = false

[dependencies]
itertools = "*"
lalrpop-util = "*"
lazy_static = "1"
lru = "*"
regex = "1"
