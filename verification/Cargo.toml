[package]
name = "math_worksheet"
version = "0.1.0"
edition = "2021"
publish = false

[dependencies]
rand = "0.8"
printpdf = "0.7"
axum = "0.7"
bytes = "1"
serde = { version = "1", features = ["derive"] }
tokio = { version = "1", features = ["macros", "rt-multi-thread", "net"] }
tower-http = { version = "0.5", features = ["cors"] }
dioxus = { version = "0.6", features = ["web"] }
gloo-net = "0.6"
js-sys = "0.3"
web-sys = { version = "0.3", features = ["Blob", "Location", "Url", "Window"] }
