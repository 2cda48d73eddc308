[package]
name = "jitlang"
version = "0.1.0"
edition = "2021"
publish = false

[dependencies]
either = "1"
libc = "0.2"
lalrpop-util = { version = "*", default-features = false }
