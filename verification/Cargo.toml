[package]
name = "ubrn_napi"
version = "0.1.0"
edition = "2021"
publish = false

[dependencies]
anyhow = "1"
camino = "=1.2.6"
cargo_metadata = "0.19"
clap = { version = "4", features = ["derive"] }
heck = "=0.5.0"
pathdiff = { version = "=0.2.3", features = ["camino"] }
proc-macro2 = "1"
serde = { version = "1", features = ["derive"] }
syn = "2"
uniffi_bindgen = "0.31"

[dev-dependencies]
toml = "0.9"
