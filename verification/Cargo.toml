[package]
name = "duchess"
version = "0.1.0"
edition = "2021"
publish = false

[dependencies]
jni-sys = "0.3.0"
