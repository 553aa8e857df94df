[package]
name = "vw_lib"
version = "0.1.0"
edition = "2021"
publish = false

[dependencies]
syn = { version = "*", features = ["full"] }
prettyplease = "*"
vhdl_lang = "*"
