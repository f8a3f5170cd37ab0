[package]
name = "pgcrab"
version = "0.2.0"
edition = "2021"
publish = false

[dependencies]
catppuccin = "*"
clap = { version = "4", features = ["derive", "env"] }
colored = "*"
eyre = "*"
fast-glob = "*"
itertools = "*"
lazy_static = "*"
maplit = "*"
minijinja = "*"
postgres = "*"
proc-macro2 = { version = "1", features = ["span-locations"] }
regex = "1"
rustpython-ast = { version = "*", features = ["location"] }
rustpython-parser = "*"
serde = { version = "1", features = ["derive"] }
sqlparser = { version = "*", features = ["visitor"] }
strum = { version = "*", features = ["derive"] }
syn = { version = "2", features = ["full", "visit", "parsing", "extra-traits"] }
toml_edit = { version = "*", features = ["serde"] }
tracing = "*"
walkdir = "*"
