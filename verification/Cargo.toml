[package]
name = "datagenerator"
version = "0.1.0"
edition = "2021"

[dependencies]
base64 = "0.13"
clap = "2"
hex = "0.4"
rand = "0.8"
thiserror = "1"
