[package]
name = "vision_bindings"
version = "0.1.0"
edition = "2021"
publish = false

[dependencies]
syn = { version = "1", default-features = false, features = ["full", "parsing", "printing", "clone-impls"] }
quote = { version = "1", default-features = false }
proc-macro2 = { version = "1", default-features = false }
sha2 = "0.10"
serde = { version = "1", features = ["derive"] }
serde_json = "1"
