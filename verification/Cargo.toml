[package]
name = "upscale_core"
version = "0.1.0"
edition = "2021"
publish = false

[dependencies]
fast_image_resize = "*"
sysinfo = "*"
image = "*"
webp = "*"
serde = { version = "*", features = ["derive"] }
serde_json = "*"
uuid = { version = "*", features = ["v4"] }
half = "*"
ort = { version = "=2.0.0-rc.13", default-features = false, features = ["load-dynamic"] }
