[package]
name = "lmdb_js_safe"
version = "0.1.0"
edition = "2021"
publish = false

[dependencies]
anyhow = "=1.0.104"
crossbeam = "=0.8.5"
heed = "=0.20.5"
lazy_static = "=1.5.1"
lz4_flex = "=0.11.6"
napi = { version = "=2.16.17", features = ["napi4"] }
napi-derive = "=2.16.13"
thiserror = "=1.0.69"
tracing = "=0.1.44"
tracing-subscriber = "=0.3.23"
