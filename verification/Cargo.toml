[package]
name = "snake_core"
version = "0.1.0"
edition = "2021"
publish = false

[dependencies]
x86_64 = { version = "*", default-features = false, features = ["instructions"] }
spin = "*"
lazy_static = { version = "1", features = ["spin_no_std"] }
pic8259_simple = "*"
