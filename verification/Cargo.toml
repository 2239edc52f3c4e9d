[package]
name = "jj_lsp"
version = "0.1.0"
edition = "2021"
publish = false

[dependencies]
lazy_static = "1"
regex = "1"
tokio = { version = "1", features = ["io-std", "macros", "rt-multi-thread", "sync"] }
tower-lsp-server = "0.22"
