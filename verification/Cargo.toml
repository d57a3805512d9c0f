[package]
name = "data_converter_engine"
version = "0.1.0"
edition = "2021"
publish = false

[dependencies]
java_string = "*"
log = "*"
valence_nbt = { version = "*", features = ["java_string", "snbt"] }
