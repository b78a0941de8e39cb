[package]
name = "rojo_build_lite"
version = "0.1.0"
edition = "2021"
publish = false

[dependencies]
anyhow = "=1.0.104"
rbx_dom_weak = "=4.2.0"
rbx_reflection = "=7.0.0"
rbx_reflection_database = "=3.0.1"
rbx_xml = "=3.0.1"
serde = { version = "=1.0.229", features = ["derive"] }
serde_json = { version = "=1.0.151", features = ["preserve_order"] }
