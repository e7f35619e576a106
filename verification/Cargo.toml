[package]
name = "nota"
version = "0.1.0"
edition = "2021"
publish = false

[dependencies]
smartstring = "1"
swc_atoms = "*"
swc_common = { version = "*", default-features = false }
