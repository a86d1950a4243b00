[package]
name = "mechanix-keyboard"
version = "0.1.0"
edition = "2021"
publish = false

[dependencies]
rustix = { version = "*", features = ["fs", "mm"] }
serde = { version = "*", features = ["derive"] }
tracing = "*"
tracing-subscriber = { version = "*", features = ["env-filter"] }
xkbcommon = "*"
xkeysym = "*"
yaml_serde = "*"
