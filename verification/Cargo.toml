[package]
name = "tarpaulin"
version = "0.1.0"
edition = "2021"
publish = false

[dependencies]
rustc-demangle = "*"
gimli = "*"
object = "*"
memmap = "*"
nix = { version = "*", features = ["ptrace", "process", "signal"] }
regex = "*"
