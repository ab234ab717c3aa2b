[package]
name = "mega-mad-scientist"
version = "0.1.0"
edition = "2021"
publish = false

[dependencies]
cosmwasm-std = "=2.3.6"
cosmwasm-schema = "=2.3.6"
cw2 = "=2.0.0"
cw721 = "=0.21.0"
cw-storage-plus = "=2.0.0"
thiserror = "=1.0.69"
