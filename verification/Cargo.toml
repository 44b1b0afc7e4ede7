[package]
name = "spawning_drunagor"
version = "0.1.0"
edition = "2021"
publish = false

[dependencies]
md5 = "=0.7.0"
rand = "=0.9.5"
rand_chacha = "=0.9.0"
getrandom = "=0.3.4"
anyhow = "=1.0.104"
serde = { version = "=1.0.229", features = ["derive"] }
serde_repr = "=0.1.21"
enum-tools = "=0.5.5"
yew = { version = "=0.22.0", features = ["csr"] }
yewdux = "=0.12.0"
yew-bootstrap = "=0.14.0"
web-sys = "=0.3.106"
serde-wasm-bindgen = "=0.6.5"
