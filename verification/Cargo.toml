[package]
name = "timeline"
version = "0.1.0"
edition = "2021"
publish = false

[dependencies]
anyhow = "=1.0.104"
bincode = "=1.3.3"
chrono = "=0.4.45"
serde = { version = "=1.0.229", features = ["derive"] }
uuid = { version = "=1.29.0", features = ["v4"] }
web-sys = { version = "=0.3.106", features = ["HtmlInputElement", "HtmlTextAreaElement"] }
yew = { version = "=0.23.0", features = ["csr"] }
yewdux = "=0.13.0"
