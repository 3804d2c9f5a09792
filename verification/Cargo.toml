[package]
name = "crabcraft"
version = "0.1.0"
edition = "2021"
publish = false

[dependencies]
anyhow = "1"
bytemuck = { version = "1", features = ["derive"] }
bytes = "1"
glam = "0.29"
md5 = "0.7"
pollster = "0.4"
reqwest = { version = "0.12", default-features = false, features = ["rustls-tls"] }
serde_json = "1"
sha1 = "0.10"
tokio = { version = "1", features = ["full"] }
tracing = "0.1"
tracing-subscriber = { version = "0.3", features = ["env-filter"] }
uuid = { version = "1", features = ["v4"] }
wgpu = "23"
winit = "0.30"
zip = { version = "2", default-features = false, features = ["deflate"] }
