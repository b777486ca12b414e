[package]
name = "makepdf"
version = "0.1.0"
edition = "2021"
publish = false

[dependencies]
anyhow = "1"
chrono = "0.4"
clap = { version = "4", features = ["derive"] }
log = "0.4"
mlua = { version = "0.9", features = ["luau", "unstable"] }
opener = "0.7"
owned_ttf_parser = "0.19"
palette = "0.7"
phf = { version = "0.11", features = ["macros"] }
printpdf = "0.7"
simplelog = "0.12"
