[package]
name = "cargo_minimize"
version = "0.1.0"
edition = "2021"
publish = false

[dependencies]
anyhow = "*"
clap = { version = "*", features = ["derive"] }
ctrlc = "*"
genemichaels = "*"
libloading = "*"
owo-colors = "*"
prettyplease = "*"
proc-macro2 = "*"
quote = "*"
rustfix = "*"
serde = { version = "*", features = ["derive"] }
serde_json = "*"
syn = { version = "*", features = ["full", "visit-mut", "extra-traits"] }
tempfile = "*"
tracing = "*"
tracing-subscriber = { version = "*", features = ["env-filter"] }
tracing-tree = "*"
walkdir = "*"
