[package]
name = "snake_game"
version = "0.1.0"
edition = "2021"
publish = false

[dependencies]
rand = "0.8"
yew = { version = "0.21", features = ["csr"] }
yew-hooks = "0.3"
web-sys = { version = "0.3", features = ["KeyboardEvent"] }
