[package]
name = "security_cam_client"
version = "0.1.0"
edition = "2021"
publish = false

[dependencies]
image = { version = "=0.25.10", default-features = false, features = ["jpeg"] }
imageproc = { version = "=0.27.0", default-features = false }
reqwest = { version = "=0.13.5", default-features = false, features = ["cookies", "stream", "form"] }
v4l = "=0.14.0"
tokio = { version = "=1.53.2", default-features = false, features = ["sync", "time", "rt", "rt-multi-thread", "macros"] }
tokio-stream = { version = "*", default-features = false, features = ["sync"] }
