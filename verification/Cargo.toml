[package]
name = "melee_inject"
version = "0.1.0"
edition = "2021"
publish = false

[dependencies]
gc-gcm = "*"
clap = { version = "3", features = ["derive"] }
codegen = "*"
phf = { version = "*", features = ["macros"] }
