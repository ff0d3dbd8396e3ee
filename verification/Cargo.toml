[package]
name = "sample_terminal"
version = "0.1.0"
edition = "2021"
publish = false

[dependencies]
libc = "*"
nix = { version = "*", features = ["term", "process", "fs"] }
objc2 = "*"
objc2-app-kit = "*"
objc2-core-foundation = "*"
objc2-core-graphics = "*"
objc2-core-text = "*"
objc2-foundation = "*"
objc2-metal = "*"
objc2-quartz-core = "*"
