[package]
name = "rc_zip"
version = "0.1.0"
edition = "2021"
publish = false

[dependencies]
chardet = "0.2"
chrono = { version = "0.4", default-features = false, features = ["std"] }
circular = "0.3"
codepage-437 = "0.1"
encoding_rs = "0.8"
hex_fmt = "0.3"
positioned-io = "0.2"

[dev-dependencies]
nom = "5"
