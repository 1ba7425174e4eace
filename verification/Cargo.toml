[package]
name = "pattern_guard"
version = "0.1.0"
edition = "2021"
publish = false

[dependencies]
regex = "1"
rayon = "1"
dotenv = "0.15"
log = "0.4"
