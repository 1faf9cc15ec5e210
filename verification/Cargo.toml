[package]
name = "rair_core"
version = "0.1.0"
edition = "2021"
publish = false

[dependencies]
app_dirs = "1.2.1"
rustyline = "5.0.6"
yansi = "0.5.0"
