[package]
name = "render_pipeline"
version = "0.1.0"
edition = "2021"
publish = false

[dependencies]
clap = { version = "4", features = ["derive"] }
skia-safe = { version = "0.64", features = ["textlayout", "svg"] }
