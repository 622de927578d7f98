[package]
name = "lachain_backend"
version = "0.1.0"
edition = "2021"
publish = false

[dependencies]
inkwell = { version = "=0.1.1", default-features = false, features = ["llvm14-0"] }
llvm-sys = { version = "=140.1.3", features = ["prefer-dynamic"] }
tiny-keccak = { version = "=2.0.2", features = ["keccak"] }
sha2 = "=0.10.9"
ripemd = "=0.1.3"
