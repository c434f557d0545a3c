[package]
name = "qchess_bot"
version = "0.1.0"
edition = "2021"
publish = false

[dependencies]
shakmaty = "=0.29.4"
rand = "=0.10.3"
burn = { version = "=0.18.0", default-features = false, features = ["std", "ndarray", "autodiff"] }
tokio = { version = "=1.54.1", default-features = false, features = ["rt", "macros"] }
uciengine = "=0.1.33"
