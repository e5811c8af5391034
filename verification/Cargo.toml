[package]
name = "node_graph"
version = "0.1.0"
edition = "2021"
publish = false

[dependencies]
eframe = { version = "=0.23.0", default-features = false, features = ["glow", "default_fonts"] }
three-d = { version = "=0.17.1", features = ["headless"] }
