[package]
name = "fixpath"
version = "0.1.0"
edition = "2021"
publish = false

[dependencies]
object = { version = "=0.36.7", default-features = false, features = ["read_core", "pe", "std", "unaligned"] }
clap = "=4.6.7"
colored = "=2.2.0"
memmap2 = "=0.9.12"
