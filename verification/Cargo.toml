[package]
name = "iced_mobile"
version = "0.1.0"
edition = "2021"
publish = false

[dependencies]
iced = { version = "=0.14.0", default-features = false, features = ["wgpu", "advanced", "tokio", "x11"] }
iced_renderer = { version = "=0.14.0", default-features = false }
iced_runtime = { version = "=0.14.0", default-features = false }
iced_wgpu = { version = "=0.14.0", default-features = false }
iced_winit = { version = "=0.14.1", default-features = false }
rustc-hash = "=2.1.3"
tracing = "=0.1.44"
tracing-subscriber = "=0.3.23"
web-sys = { version = "=0.3.107", features = ["Document", "Element", "HtmlCanvasElement", "HtmlElement", "Node", "Window"] }
