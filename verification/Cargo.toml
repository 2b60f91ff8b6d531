[package]
name = "workshop"
version = "0.1.0"
edition = "2021"
publish = false

[dependencies]
rand = "0.8"
proc-macro2 = "1"
syn = "1"
