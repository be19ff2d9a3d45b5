[package]
name = "matubokkuri"
version = "0.1.0"
edition = "2021"
publish = false

[dependencies]
specs = "0.14"
specs-derive = "0.4"
ggez = "0.5"
warmy = "0.11"
log = "0.4"
