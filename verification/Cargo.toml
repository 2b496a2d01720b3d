[package]
name = "xml_localizer"
version = "0.1.0"
edition = "2021"
publish = false

[dependencies]
quick-xml = "*"
clap = { version = "*", features = ["derive"] }
ctrlc = "*"
tokio = { version = "*", features = ["rt-multi-thread", "macros"] }
rust-translate = "*"
