[package]
name = "transformable"
version = "0.1.0"
edition = "2021"
publish = false

[dependencies]
byteorder = "1"
smol_str = "0.2"
thiserror = "1"
futures-util = { version = "0.3", default-features = false, features = ["std", "io"] }

[dev-dependencies]
rand = "0.8"
