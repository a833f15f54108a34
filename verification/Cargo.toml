[package]
name = "ergo_node_interface"
version = "0.1.0"
edition = "2021"
publish = false

[dependencies]
ergo-lib = "*"
serde_json = "*"
base16 = "*"
json = "*"
reqwest = { version = "*", default-features = false, features = ["blocking"] }
yaml-rust = "*"
serde = { version = "*", features = ["derive"] }
thiserror = "*"
derive_more = { version = "*", features = ["from", "into", "display"] }
