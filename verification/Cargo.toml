[package]
name = "mask_generator"
version = "0.1.0"
edition = "2021"
publish = false

[dependencies]
anyhow = "=1.0.104"
displaydoc = "=0.2.7"
grammers-client = "=0.6.0"
grammers-session = "=0.5.2"
image = { version = "=0.25.10", default-features = false, features = ["jpeg", "png"] }
indoc = "=2.0.8"
num-traits = "=0.2.19"
resvg = "=0.48.1"
serde = { version = "=1.0.229", features = ["derive"] }
serde_json = "=1.0.154"
tiny-skia = "=0.12.0"
tokio = { version = "=1.54.1", features = ["rt", "macros", "signal", "time"] }
tracing = "=0.1.44"
tracing-subscriber = "0.3"
usvg = "=0.48.1"
xml-builder = "=0.6.0"
