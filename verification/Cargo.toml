[package]
name = "turbo_bear"
version = "0.1.0"
edition = "2021"
publish = false

[dependencies]
clap = { version = "=3.2.25", features = ["derive"] }
inkwell = { version = "=0.2.0", features = ["llvm14-0"] }
llvm-sys = { version = "=140.1.3", features = ["prefer-dynamic"] }
pest = "=2.9.4"
pest_derive = "=2.9.4"

[dev-dependencies]
pest_meta = "=2.9.4"
pest_vm = "=2.9.4"
