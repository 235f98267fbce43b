[package]
name = "embedded-sdmmc"
version = "0.1.0"
edition = "2021"
publish = false

[dependencies]
byteorder = { version = "1", default-features = false }
embedded-io = "0.6"
embedded-hal = "1.0"
