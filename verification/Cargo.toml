[package]
name = "gmp-ecm"
version = "0.1.0"
edition = "2021"
publish = false

[dependencies]
clap = { version = "=4.6.7", features = ["derive"] }
gmp-mpfr-sys = { version = "1", default-features = false, features = ["use-system-libs"] }
rug = { version = "=1.19.2", default-features = false, features = ["integer"] }
update-informer = "=1.3.0"
