[package]
name = "ventouse"
version = "0.1.0"
edition = "2021"
publish = false
rust-version = "1.95"

[dependencies]
syn = { version = "=2.0.119", features = ["full", "extra-traits"] }
proc-macro2 = { version = "=1.0.107", features = ["span-locations"] }
oxc_parser = "=0.143.0"
oxc_ast = "=0.143.0"
oxc_allocator = "=0.143.0"
oxc_span = "=0.143.0"
clang = { version = "=2.1.0", features = ["runtime"] }
clang-sys = { version = "=1.9.1", features = ["runtime"] }
walkdir = "=2.5.0"
serde_json = "=1.0.154"
